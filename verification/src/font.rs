use vstd::prelude::*;
use crate::memory::MEMORY_SIZE;

verus! {

/// Number of bytes of font data: sixteen hexadecimal digits, five bytes each.
pub const FONT_SIZE: usize = 80;

/// The built-in font: the sprites of the hexadecimal digits 0 to F, five rows
/// of eight pixels each, one byte per row.
pub open spec fn font() -> Seq<u8> {
    seq![
        0xF0u8, 0x90, 0x90, 0x90, 0xF0, 0x20, 0x60, 0x20, 0x20, 0x70, 0xF0, 0x10, 0xF0, 0x80, 0xF0,
        0xF0, 0x10, 0xF0, 0x10, 0xF0, 0x90, 0x90, 0xF0, 0x10, 0x10, 0xF0, 0x80, 0xF0, 0x10, 0xF0,
        0xF0, 0x80, 0xF0, 0x90, 0xF0, 0xF0, 0x10, 0x20, 0x40, 0x40, 0xF0, 0x90, 0xF0, 0x90, 0xF0,
        0xF0, 0x90, 0xF0, 0x10, 0xF0, 0xF0, 0x90, 0xF0, 0x90, 0x90, 0xE0, 0x90, 0xE0, 0x90, 0xE0,
        0xF0, 0x80, 0x80, 0x80, 0xF0, 0xE0, 0x90, 0x90, 0x90, 0xE0, 0xF0, 0x80, 0xF0, 0x80, 0xF0,
        0xF0, 0x80, 0xF0, 0x80, 0x80,
    ]
}

/// Copies the font into the first bytes of memory and leaves the rest alone.
pub fn store_hex_digits(mem: &mut Vec<u8>)
    requires
        old(mem)@.len() == MEMORY_SIZE,
    ensures
        final(mem)@ == font() + old(mem)@.subrange(FONT_SIZE as int, MEMORY_SIZE as int),
{
    let digits: [u8; 80] = [
        0xF0, 0x90, 0x90, 0x90, 0xF0, 0x20, 0x60, 0x20, 0x20, 0x70, 0xF0, 0x10, 0xF0, 0x80, 0xF0,
        0xF0, 0x10, 0xF0, 0x10, 0xF0, 0x90, 0x90, 0xF0, 0x10, 0x10, 0xF0, 0x80, 0xF0, 0x10, 0xF0,
        0xF0, 0x80, 0xF0, 0x90, 0xF0, 0xF0, 0x10, 0x20, 0x40, 0x40, 0xF0, 0x90, 0xF0, 0x90, 0xF0,
        0xF0, 0x90, 0xF0, 0x10, 0xF0, 0xF0, 0x90, 0xF0, 0x90, 0x90, 0xE0, 0x90, 0xE0, 0x90, 0xE0,
        0xF0, 0x80, 0x80, 0x80, 0xF0, 0xE0, 0x90, 0x90, 0x90, 0xE0, 0xF0, 0x80, 0xF0, 0x80, 0xF0,
        0xF0, 0x80, 0xF0, 0x80, 0x80,
    ];
    assert(digits@ =~= font());
    let mut i: usize = 0;
    while i < FONT_SIZE
        invariant
            i <= FONT_SIZE,
            digits@ == font(),
            mem@.len() == MEMORY_SIZE,
            forall|k: int| 0 <= k < i ==> #[trigger] mem@[k] == font()[k],
            forall|k: int| i <= k < MEMORY_SIZE ==> #[trigger] mem@[k] == old(mem)@[k],
        decreases FONT_SIZE - i,
    {
        mem[i] = digits[i];
        i = i + 1;
    }
    assert(mem@ =~= font() + old(mem)@.subrange(FONT_SIZE as int, MEMORY_SIZE as int));
}

/// The sprite of hexadecimal digit `d` in the font.
pub open spec fn glyph(d: int) -> Seq<u8> {
    font().subrange(d * 5, d * 5 + 5)
}

/// A glyph's five rows read as one number, most significant row first.
spec fn glyph_code(d: int) -> int {
    let g = glyph(d);
    g[0] * 0x1_0000_0000 + g[1] * 0x100_0000 + g[2] * 0x1_0000 + g[3] * 0x100 + g[4]
}

/// The values of `glyph_code` for the sixteen digits.
spec fn glyph_code_table(d: int) -> int {
    if d == 0 {
        1033217544432
    } else if d == 1 {
        139051671664
    } else if d == 2 {
        1031076348144
    } else if d == 3 {
        1031076319472
    } else if d == 4 {
        620906942480
    } else if d == 5 {
        1032955367664
    } else if d == 6 {
        1032955400432
    } else if d == 7 {
        1031062700096
    } else if d == 8 {
        1033223835888
    } else if d == 9 {
        1033223803120
    } else if d == 10 {
        1033223835792
    } else if d == 11 {
        964503310560
    } else if d == 12 {
        1032948056304
    } else if d == 13 {
        964498067680
    } else if d == 14 {
        1032955396336
    } else {
        1032955396224
    }
}

/// Every hexadecimal digit has a sprite of its own: no two digits of the
/// font look alike.
pub proof fn lemma_glyphs_distinct()
    ensures
        forall|a: int, b: int|
            0 <= a < 16 && 0 <= b < 16 && a != b ==> #[trigger] glyph(a) != #[trigger] glyph(b),
{
    assert forall|d: int| 0 <= d < 16 implies #[trigger] glyph_code(d) == glyph_code_table(d) by {
        if d == 0 {
        } else if d == 1 {
        } else if d == 2 {
        } else if d == 3 {
        } else if d == 4 {
        } else if d == 5 {
        } else if d == 6 {
        } else if d == 7 {
        } else if d == 8 {
        } else if d == 9 {
        } else if d == 10 {
        } else if d == 11 {
        } else if d == 12 {
        } else if d == 13 {
        } else if d == 14 {
        } else if d == 15 {
        }
    }
    assert forall|a: int, b: int| 0 <= a < 16 && 0 <= b < 16 && a != b implies #[trigger] glyph(a)
        != #[trigger] glyph(b) by {
        if glyph(a) == glyph(b) {
            assert(glyph_code(a) == glyph_code(b));
            assert(glyph_code_table(a) == glyph_code_table(b));
        }
    }
}

} // verus!
