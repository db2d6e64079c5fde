//! Sprite drawing, pixel by pixel: where neither X nor Y names the flag
//! register, drawing turns over exactly the pixels under the sprite's set
//! bits, so drawing the same sprite twice leaves the screen as it was.

use vstd::prelude::*;
use crate::display::{SCREEN_SIZE, draw_steps, draw_pos, sprite_bit};

verus! {

/// How many rows below VY screen row `p / 64` lies, counting around the
/// bottom edge.
pub open spec fn row_offset(vy: u8, p: int) -> int {
    (p / 64 - vy) % 32
}

/// How many columns right of VX screen column `p % 64` lies, counting around
/// the right edge.
pub open spec fn col_offset(vx: u8, p: int) -> int {
    (p % 64 - vx) % 64
}

/// The sprite bit that a sprite of `n` rows from memory address `i`, drawn
/// at (`vx`, `vy`), lays on screen pixel `p`, counting only its first `k`
/// bits (eight to a row); 0 where it lays none.
pub open spec fn sprite_mask(mem: Seq<u8>, i: int, vx: u8, vy: u8, n: int, k: int, p: int) -> u8 {
    let dy = row_offset(vy, p);
    let dx = col_offset(vx, p);
    if dy < n && dx < 8 && dy * 8 + dx < k {
        sprite_bit(mem[i + dy], dx)
    } else {
        0u8
    }
}

/// Whether drawing the first `k` bits of the sprite meets a lit pixel of
/// `screen`.
pub open spec fn collides(screen: Seq<u8>, mem: Seq<u8>, i: int, vx: u8, vy: u8, n: int, k: int) -> bool {
    exists|p: int|
        0 <= p < SCREEN_SIZE && #[trigger] sprite_mask(mem, i, vx, vy, n, k, p) == 1 && screen[p]
            == 1
}

/// The screen index of bit `j` of the sprite drawn at (`vx`, `vy`).
pub open spec fn pixel_at(vx: u8, vy: u8, j: int) -> int {
    ((vy + j / 8) % 32) * 64 + (vx + j % 8) % 64
}

proof fn lemma_row_col(a: int, b: int)
    requires
        0 <= a < 32,
        0 <= b < 64,
    ensures
        0 <= a * 64 + b < SCREEN_SIZE,
        (a * 64 + b) / 64 == a,
        (a * 64 + b) % 64 == b,
{
    assert(0 <= a * 64 + b < 2048 && (a * 64 + b) / 64 == a && (a * 64 + b) % 64 == b)
        by (nonlinear_arith)
        requires
            0 <= a < 32,
            0 <= b < 64,
    ;
}

proof fn lemma_split(j: int)
    requires
        0 <= j,
    ensures
        j == (j / 8) * 8 + j % 8,
        0 <= j % 8 < 8,
        0 <= j / 8,
{
    assert(j == (j / 8) * 8 + j % 8 && 0 <= j % 8 < 8 && 0 <= j / 8) by (nonlinear_arith)
        requires
            0 <= j,
    ;
}

proof fn lemma_join(dy: int, dx: int)
    requires
        0 <= dy,
        0 <= dx < 8,
    ensures
        (dy * 8 + dx) / 8 == dy,
        (dy * 8 + dx) % 8 == dx,
{
    assert((dy * 8 + dx) / 8 == dy && (dy * 8 + dx) % 8 == dx) by (nonlinear_arith)
        requires
            0 <= dy,
            0 <= dx < 8,
    ;
}

/// Bit `j` of the sprite lands on the pixel whose offsets from (VX, VY) are
/// its row and column in the sprite.
proof fn lemma_pixel_at_inverse(vx: u8, vy: u8, j: int)
    requires
        0 <= j < 256,
    ensures
        0 <= pixel_at(vx, vy, j) < SCREEN_SIZE,
        row_offset(vy, pixel_at(vx, vy, j)) == j / 8,
        col_offset(vx, pixel_at(vx, vy, j)) == j % 8,
{
    lemma_split(j);
    let a = (vy + j / 8) % 32;
    let b = (vx + j % 8) % 64;
    lemma_row_col(a, b);
}

/// A pixel within reach of the sprite is where its bit, found from the
/// pixel's offsets, lands.
proof fn lemma_pixel_at_forward(vx: u8, vy: u8, p: int)
    requires
        0 <= p < SCREEN_SIZE,
        col_offset(vx, p) < 8,
    ensures
        pixel_at(vx, vy, row_offset(vy, p) * 8 + col_offset(vx, p)) == p,
{
    let dy = row_offset(vy, p);
    let dx = col_offset(vx, p);
    lemma_join(dy, dx);
    assert(0 <= p / 64 < 32 && 0 <= p % 64 < 64 && p == (p / 64) * 64 + p % 64) by (nonlinear_arith)
        requires
            0 <= p < 2048,
    ;
}

proof fn lemma_bits(a: u8, c: u8, f: u8)
    requires
        a <= 1,
        c <= 1,
        f <= 1,
    ensures
        a ^ 0u8 == a,
        (a ^ c) ^ c == a,
        c & a <= 1,
        (f | (c & a)) <= 1,
        (f | (c & a) == 1) == (f == 1 || (c == 1 && a == 1)),
{
    assert(a ^ 0u8 == a) by (bit_vector);
    assert((a ^ c) ^ c == a) by (bit_vector);
    assert(c & a <= 1 && (f | (c & a)) <= 1 && ((f | (c & a) == 1) == (f == 1 || (c == 1 && a
        == 1)))) by (bit_vector)
        requires
            a <= 1,
            c <= 1,
            f <= 1,
    ;
}

proof fn lemma_sprite_bit_small(row: u8, b: int)
    ensures
        sprite_bit(row, b) <= 1,
{
    let sh = (7 - b) as u8;
    assert((row >> sh) & 1u8 <= 1) by (bit_vector);
}

/// A sprite bit laid on a pixel is 0 or 1.
pub proof fn lemma_mask_small(mem: Seq<u8>, i: int, vx: u8, vy: u8, n: int, k: int, p: int)
    ensures
        sprite_mask(mem, i, vx, vy, n, k, p) <= 1,
{
    lemma_sprite_bit_small(mem[i + row_offset(vy, p)], col_offset(vx, p));
}

/// Drawing `k` bits of a sprite where neither X nor Y names VF: each pixel is
/// the old one turned over by the sprite bit laid on it, and VF tells whether
/// a lit pixel was met.
proof fn lemma_draw_prefix(
    regs: Seq<u8>,
    screen: Seq<u8>,
    mem: Seq<u8>,
    i: int,
    x: int,
    y: int,
    n: int,
    k: nat,
)
    requires
        regs.len() == 16,
        screen.len() == SCREEN_SIZE,
        forall|p: int| 0 <= p < SCREEN_SIZE ==> #[trigger] screen[p] <= 1,
        0 <= x < 15,
        0 <= y < 15,
        0 <= n < 16,
        k <= n * 8,
    ensures
        ({
            let (r, s) = draw_steps(regs, screen, mem, i, x, y, k);
            &&& s.len() == SCREEN_SIZE
            &&& r == regs.update(
                15,
                if collides(screen, mem, i, regs[x], regs[y], n, k as int) { 1u8 } else { 0u8 },
            )
            &&& forall|p: int|
                0 <= p < SCREEN_SIZE ==> #[trigger] s[p] == screen[p] ^ sprite_mask(
                    mem,
                    i,
                    regs[x],
                    regs[y],
                    n,
                    k as int,
                    p,
                )
        }),
    decreases k,
{
    let vx = regs[x];
    let vy = regs[y];
    if k == 0 {
        let (r, s) = draw_steps(regs, screen, mem, i, x, y, k);
        assert forall|p: int| 0 <= p < SCREEN_SIZE implies #[trigger] s[p] == screen[p]
            ^ sprite_mask(mem, i, vx, vy, n, 0, p) by {
            lemma_bits(screen[p], 0, 0);
        }
        assert(!collides(screen, mem, i, vx, vy, n, 0));
    } else {
        let j = (k - 1) as nat;
        lemma_draw_prefix(regs, screen, mem, i, x, y, n, j);
        lemma_split(j as int);
        lemma_draw_prefix(regs, screen, mem, i, x, y, n, (j - j % 8) as nat);
        let (r, s) = draw_steps(regs, screen, mem, i, x, y, j);
        let p = draw_pos(regs, screen, mem, i, x, y, j);
        assert(p == pixel_at(vx, vy, j as int));
        lemma_pixel_at_inverse(vx, vy, j as int);
        let c = sprite_bit(mem[i + j / 8], (j % 8) as int);
        lemma_sprite_bit_small(mem[i + j / 8], (j % 8) as int);
        assert(sprite_mask(mem, i, vx, vy, n, j as int, p) == 0);
        assert(sprite_mask(mem, i, vx, vy, n, k as int, p) == c);
        assert(s[p] == screen[p]) by {
            lemma_bits(screen[p], 0, 0);
        }
        let (r2, s2) = draw_steps(regs, screen, mem, i, x, y, k);
        assert(s2 == s.update(p, s[p] ^ c));
        assert forall|q: int| 0 <= q < SCREEN_SIZE implies #[trigger] s2[q] == screen[q]
            ^ sprite_mask(mem, i, vx, vy, n, k as int, q) by {
            if q != p {
                if sprite_mask(mem, i, vx, vy, n, k as int, q) != sprite_mask(
                    mem,
                    i,
                    vx,
                    vy,
                    n,
                    j as int,
                    q,
                ) {
                    lemma_pixel_at_forward(vx, vy, q);
                    assert(row_offset(vy, q) * 8 + col_offset(vx, q) == j);
                }
            }
        }
        let f = r[15];
        lemma_bits(screen[p], c, f);
        let was = collides(screen, mem, i, vx, vy, n, j as int);
        let now = collides(screen, mem, i, vx, vy, n, k as int);
        if was {
            let q = choose|q: int|
                0 <= q < SCREEN_SIZE && #[trigger] sprite_mask(mem, i, vx, vy, n, j as int, q) == 1
                    && screen[q] == 1;
            assert(sprite_mask(mem, i, vx, vy, n, k as int, q) == 1);
        }
        if c == 1 && screen[p] == 1 {
            assert(sprite_mask(mem, i, vx, vy, n, k as int, p) == 1);
        }
        if now {
            let q = choose|q: int|
                0 <= q < SCREEN_SIZE && #[trigger] sprite_mask(mem, i, vx, vy, n, k as int, q) == 1
                    && screen[q] == 1;
            if q != p {
                if sprite_mask(mem, i, vx, vy, n, j as int, q) != 1 {
                    lemma_pixel_at_forward(vx, vy, q);
                    assert(row_offset(vy, q) * 8 + col_offset(vx, q) == j);
                }
                assert(was);
            }
        }
        assert(r2 =~= regs.update(15, if now { 1u8 } else { 0u8 }));
    }
}

/// DXYN where neither X nor Y names VF, on a screen of 0s and 1s: the screen
/// afterwards is the old one with exactly the pixels under the sprite's set
/// bits turned over, and VF is 1 exactly when one of them was lit.
pub proof fn lemma_draw_xor(
    regs: Seq<u8>,
    screen: Seq<u8>,
    mem: Seq<u8>,
    i: int,
    x: int,
    y: int,
    n: int,
)
    requires
        regs.len() == 16,
        screen.len() == SCREEN_SIZE,
        forall|p: int| 0 <= p < SCREEN_SIZE ==> #[trigger] screen[p] <= 1,
        0 <= x < 15,
        0 <= y < 15,
        0 <= n < 16,
    ensures
        ({
            let (r, s) = draw_steps(regs, screen, mem, i, x, y, (n * 8) as nat);
            &&& s.len() == SCREEN_SIZE
            &&& r == regs.update(
                15,
                if collides(screen, mem, i, regs[x], regs[y], n, n * 8) { 1u8 } else { 0u8 },
            )
            &&& forall|p: int|
                0 <= p < SCREEN_SIZE ==> #[trigger] s[p] == screen[p] ^ sprite_mask(
                    mem,
                    i,
                    regs[x],
                    regs[y],
                    n,
                    n * 8,
                    p,
                )
        }),
{
    lemma_draw_prefix(regs, screen, mem, i, x, y, n, (n * 8) as nat);
}

} // verus!
