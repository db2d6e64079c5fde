//! The screen buffer: clearing it, drawing sprites into it, and what the
//! window shows of it.
#![allow(non_snake_case)]

use vstd::prelude::*;
use crate::opcode::{op_x, op_y, op_n, reg_x, reg_y, nibble_n};
use crate::memory::MEMORY_SIZE;

verus! {

/// Screen height, in pixels.
pub const CHIP_8_HEIGHT: usize = 32;

/// Screen width, in pixels.
pub const CHIP_8_WIDTH: usize = 64;

/// Number of pixels; the screen buffer holds them row by row.
pub const SCREEN_SIZE: usize = 2048;

/// Side, in window pixels, of the square that shows one screen pixel.
pub const SCREEN_SCALAR: usize = 20;

/// A screen with every pixel off.
pub open spec fn blank_screen() -> Seq<u8> {
    Seq::new(SCREEN_SIZE as nat, |i: int| 0u8)
}

/// Bit `b` of a sprite row, counted from the most significant bit.
pub open spec fn sprite_bit(row: u8, b: int) -> u8 {
    (row >> ((7 - b) as u8)) & 1u8
}

/// Registers and screen while drawing: what `k` steps of drawing leave, one
/// step per sprite pixel, eight per sprite row. The flag register VF is
/// cleared first. Each row's screen line is taken from VY as it stands at the
/// start of that row, each pixel's column from VX as it stands at that pixel
/// (they can differ from the start only where X or Y names VF). A step turns
/// the pixel over where the sprite bit is set, and sets VF where it turned a
/// lit pixel off.
pub open spec fn draw_steps(
    regs: Seq<u8>,
    screen: Seq<u8>,
    mem: Seq<u8>,
    i: int,
    x: int,
    y: int,
    k: nat,
) -> (Seq<u8>, Seq<u8>)
    decreases k, 0int,
{
    if k == 0 {
        (regs.update(15, 0u8), screen)
    } else {
        let j = (k - 1) as nat;
        let (r, s) = draw_steps(regs, screen, mem, i, x, y, j);
        let p = draw_pos(regs, screen, mem, i, x, y, j);
        let c = sprite_bit(mem[i + j / 8], (j % 8) as int);
        (r.update(15, r[15] | (c & s[p])), s.update(p, s[p] ^ c))
    }
}

/// Screen index of the pixel of step `j` of drawing.
pub open spec fn draw_pos(
    regs: Seq<u8>,
    screen: Seq<u8>,
    mem: Seq<u8>,
    i: int,
    x: int,
    y: int,
    j: nat,
) -> int
    decreases j, 1int,
{
    let row_start = draw_steps(regs, screen, mem, i, x, y, (j - j % 8) as nat).0;
    let now = draw_steps(regs, screen, mem, i, x, y, j).0;
    ((row_start[y] + j / 8) % 32) * 64 + (now[x] + j % 8) % 64
}

/// A colour by its red, green and blue parts.
#[derive(Clone, Copy, Debug, PartialEq, Eq, Structural)]
pub struct Rgb {
    pub r: u8,
    pub g: u8,
    pub b: u8,
}

/// The colour that shows a pixel value: white for 1, black for 0, red for
/// anything else.
pub open spec fn color_of(col: u8) -> Rgb {
    if col == 1 {
        Rgb { r: 255, g: 255, b: 255 }
    } else if col == 0 {
        Rgb { r: 0, g: 0, b: 0 }
    } else {
        Rgb { r: 255, g: 0, b: 0 }
    }
}

/// The colour that shows a pixel value: white for 1, black for 0, red for
/// anything else.
pub fn pixel_color(col: u8) -> (c: Rgb)
    ensures
        c == color_of(col),
{
    match col {
        1 => Rgb { r: 255, g: 255, b: 255 },
        0 => Rgb { r: 0, g: 0, b: 0 },
        _ => Rgb { r: 255, g: 0, b: 0 },
    }
}

/// One square of the window: where it stands, its side, and its colour.
#[derive(Clone, Copy, Debug, PartialEq, Eq, Structural)]
pub struct PaintCell {
    pub x: i32,
    pub y: i32,
    pub size: u32,
    pub color: Rgb,
}

/// The square that shows screen pixel `k` (row `k / 64`, column `k % 64`)
/// holding value `col`: `SCREEN_SCALAR` window pixels a side.
pub open spec fn cell_of(k: int, col: u8) -> PaintCell {
    PaintCell {
        x: ((k % 64) * 20) as i32,
        y: ((k / 64) * 20) as i32,
        size: SCREEN_SCALAR as u32,
        color: color_of(col),
    }
}

/// The squares that show the screen, pixel by pixel, row after row.
pub fn doodle_cells(vram: &Vec<u8>) -> (cells: Vec<PaintCell>)
    requires
        vram@.len() == SCREEN_SIZE,
    ensures
        cells@.len() == SCREEN_SIZE,
        forall|k: int| 0 <= k < SCREEN_SIZE ==> #[trigger] cells@[k] == cell_of(k, vram@[k]),
{
    let mut cells: Vec<PaintCell> = Vec::new();
    let mut y: usize = 0;
    while y < CHIP_8_HEIGHT
        invariant
            y <= CHIP_8_HEIGHT,
            vram@.len() == SCREEN_SIZE,
            cells@.len() == y * 64,
            forall|k: int| 0 <= k < y * 64 ==> #[trigger] cells@[k] == cell_of(k, vram@[k]),
        decreases CHIP_8_HEIGHT - y,
    {
        let mut x: usize = 0;
        while x < CHIP_8_WIDTH
            invariant
                x <= CHIP_8_WIDTH,
                y < CHIP_8_HEIGHT,
                vram@.len() == SCREEN_SIZE,
                cells@.len() == y * 64 + x,
                forall|k: int| 0 <= k < y * 64 + x ==> #[trigger] cells@[k] == cell_of(k, vram@[k]),
            decreases CHIP_8_WIDTH - x,
        {
            let k = y * CHIP_8_WIDTH + x;
            proof {
                assert((y * 64 + x) / 64 == y && (y * 64 + x) % 64 == x) by (nonlinear_arith)
                    requires
                        x < 64,
                ;
            }
            let col = vram[k];
            let cell = PaintCell {
                x: (x * SCREEN_SCALAR) as i32,
                y: (y * SCREEN_SCALAR) as i32,
                size: SCREEN_SCALAR as u32,
                color: pixel_color(col),
            };
            cells.push(cell);
            x = x + 1;
        }
        y = y + 1;
    }
    cells
}

/// 00E0: clear the screen.
pub fn op_00E0(vram: &mut Vec<u8>)
    ensures
        final(vram)@ == blank_screen(),
{
    *vram = vec![0u8; SCREEN_SIZE];
    assert(vram@ =~= blank_screen());
}

proof fn lemma_step_index(byte: int, bit: int)
    requires
        0 <= byte,
        0 <= bit < 8,
    ensures
        (byte * 8 + bit) / 8 == byte,
        (byte * 8 + bit) % 8 == bit,
{
    assert((byte * 8 + bit) / 8 == byte && (byte * 8 + bit) % 8 == bit) by (nonlinear_arith)
        requires
            0 <= byte,
            0 <= bit < 8,
    ;
}

/// DXYN: draw the N-row sprite stored at I at (VX, VY), wrapping around the
/// screen's edges; VF is set to 1 if some lit pixel was turned off, else 0.
/// The step-by-step meaning is `draw_steps`; `lemma_draw_xor` states the
/// result pixel by pixel where neither X nor Y names VF.
pub fn op_DXYN(adr_i: u16, opcode: u16, regs: &mut [u8; 16], vram: &mut Vec<u8>, mem: &Vec<u8>)
    requires
        old(vram)@.len() == SCREEN_SIZE,
        mem@.len() == MEMORY_SIZE,
        op_n(opcode) == 0 || adr_i + op_n(opcode) <= MEMORY_SIZE,
    ensures
        (final(regs)@, final(vram)@) == draw_steps(
            old(regs)@,
            old(vram)@,
            mem@,
            adr_i as int,
            op_x(opcode),
            op_y(opcode),
            (op_n(opcode) * 8) as nat,
        ),
{
    let regx = reg_x(opcode);
    let regy = reg_y(opcode);
    let n = nibble_n(opcode);
    let ghost regs0 = old(regs)@;
    let ghost vram0 = old(vram)@;
    let ghost i = adr_i as int;
    regs[15] = 0;
    let mut byte: u16 = 0;
    while byte < n
        invariant
            byte <= n,
            n == op_n(opcode),
            n < 16,
            regx == op_x(opcode),
            regy == op_y(opcode),
            regx < 16,
            regy < 16,
            vram@.len() == SCREEN_SIZE,
            mem@.len() == MEMORY_SIZE,
            n == 0 || adr_i + n <= MEMORY_SIZE,
            i == adr_i,
            (regs@, vram@) == draw_steps(regs0, vram0, mem@, i, regx as int, regy as int, (byte * 8) as nat),
        decreases n - byte,
    {
        let y = (regs[regy] as usize + byte as usize) % CHIP_8_HEIGHT;
        let ghost row_start = regs@;
        let mut bit: usize = 0;
        while bit < 8
            invariant
                bit <= 8,
                byte < n,
                n == op_n(opcode),
                n < 16,
                regx == op_x(opcode),
                regy == op_y(opcode),
                regx < 16,
                regy < 16,
                vram@.len() == SCREEN_SIZE,
                mem@.len() == MEMORY_SIZE,
                adr_i + n <= MEMORY_SIZE,
                i == adr_i,
                row_start == draw_steps(regs0, vram0, mem@, i, regx as int, regy as int, (byte * 8) as nat).0,
                y == (row_start[regy as int] + byte) % 32,
                (regs@, vram@) == draw_steps(regs0, vram0, mem@, i, regx as int, regy as int, (byte * 8 + bit) as nat),
            decreases 8 - bit,
        {
            let x = (regs[regx] as usize + bit) % CHIP_8_WIDTH;
            let color = (mem[(adr_i + byte) as usize] >> ((7 - bit) as u8)) & 1u8;
            let p = y * CHIP_8_WIDTH + x;
            proof {
                let j = (byte * 8 + bit) as nat;
                lemma_step_index(byte as int, bit as int);
                assert(j - j % 8 == byte * 8);
                assert(draw_pos(regs0, vram0, mem@, i, regx as int, regy as int, j) == p);
                assert(color == sprite_bit(mem@[i + j / 8], (j % 8) as int));
            }
            regs[15] = regs[15] | (color & vram[p]);
            vram[p] = vram[p] ^ color;
            bit = bit + 1;
        }
        byte = byte + 1;
    }
}

} // verus!
