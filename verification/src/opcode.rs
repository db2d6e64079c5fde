use vstd::prelude::*;

verus! {

/// The instruction group: the opcode's highest nibble.
pub open spec fn op_class(o: u16) -> int {
    o as int / 4096
}

/// The register named by the opcode's second nibble (`X`).
pub open spec fn op_x(o: u16) -> int {
    (o as int / 256) % 16
}

/// The register named by the opcode's third nibble (`Y`).
pub open spec fn op_y(o: u16) -> int {
    (o as int / 16) % 16
}

/// The opcode's lowest nibble (`N`).
pub open spec fn op_n(o: u16) -> int {
    o as int % 16
}

/// The opcode's low byte (`NN`).
pub open spec fn op_nn(o: u16) -> int {
    o as int % 256
}

/// The opcode's low twelve bits (`NNN`), an address.
pub open spec fn op_nnn(o: u16) -> int {
    o as int % 4096
}

/// Index of the register named by the opcode's `X` nibble.
pub fn reg_x(opcode: u16) -> (r: usize)
    ensures
        r == op_x(opcode),
        r < 16,
{
    let r = (opcode & 0x0F00u16) >> 8u16;
    assert(r == (opcode as int / 256) % 16) by (bit_vector)
        requires r == (opcode & 0x0F00u16) >> 8u16;
    r as usize
}

/// Index of the register named by the opcode's `Y` nibble.
pub fn reg_y(opcode: u16) -> (r: usize)
    ensures
        r == op_y(opcode),
        r < 16,
{
    let r = (opcode & 0x00F0u16) >> 4u16;
    assert(r == (opcode as int / 16) % 16) by (bit_vector)
        requires r == (opcode & 0x00F0u16) >> 4u16;
    r as usize
}

/// The opcode's `N` nibble.
pub fn nibble_n(opcode: u16) -> (r: u16)
    ensures
        r == op_n(opcode),
{
    let r = opcode & 0x000Fu16;
    assert(r == opcode as int % 16) by (bit_vector)
        requires r == opcode & 0x000Fu16;
    r
}

/// The opcode's `NN` byte.
pub fn byte_nn(opcode: u16) -> (r: u8)
    ensures
        r == op_nn(opcode),
{
    let r = opcode & 0x00FFu16;
    assert(r == opcode as int % 256) by (bit_vector)
        requires r == opcode & 0x00FFu16;
    r as u8
}

/// The opcode's `NNN` address.
pub fn addr_nnn(opcode: u16) -> (r: u16)
    ensures
        r == op_nnn(opcode),
{
    let r = opcode & 0x0FFFu16;
    assert(r == opcode as int % 4096) by (bit_vector)
        requires r == opcode & 0x0FFFu16;
    r
}

/// The opcode's instruction group (highest nibble).
pub fn class_of(opcode: u16) -> (r: u16)
    ensures
        r == op_class(opcode),
        r < 16,
{
    let r = (opcode & 0xF000u16) >> 12u16;
    assert(r == opcode as int / 4096) by (bit_vector)
        requires r == (opcode & 0xF000u16) >> 12u16;
    r
}

} // verus!
