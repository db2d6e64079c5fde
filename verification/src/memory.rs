use vstd::prelude::*;

verus! {

/// Size of the interpreter's memory, in bytes.
pub const MEMORY_SIZE: usize = 0xFFF;

/// Address at which programs are loaded and start: the interpreter itself
/// occupied the memory below it.
pub const PROGRAM_START: usize = 0x200;

/// Number of program bytes that fit in memory from `PROGRAM_START` on.
pub open spec fn loaded_len(rom_len: int) -> int {
    if rom_len < MEMORY_SIZE - PROGRAM_START {
        rom_len
    } else {
        MEMORY_SIZE - PROGRAM_START
    }
}

/// Memory after loading `rom` at `PROGRAM_START`: as many of its bytes as
/// fit, the rest of memory as it was.
pub open spec fn loaded_memory(mem: Seq<u8>, rom: Seq<u8>) -> Seq<u8> {
    mem.subrange(0, PROGRAM_START as int) + rom.subrange(0, loaded_len(rom.len() as int))
        + mem.subrange(PROGRAM_START + loaded_len(rom.len() as int), MEMORY_SIZE as int)
}

/// Resets the address register and the program counter and loads a program
/// image at `PROGRAM_START`. Bytes of `rom` beyond the end of memory are not
/// loaded.
pub fn rst(mem: &mut Vec<u8>, adr: &mut u16, pc: &mut u16, rom: &[u8])
    requires
        old(mem)@.len() == MEMORY_SIZE,
    ensures
        *final(adr) == 0,
        *final(pc) == PROGRAM_START,
        final(mem)@ == loaded_memory(old(mem)@, rom@),
{
    *adr = 0;
    *pc = 0x200;
    let count: usize = if rom.len() < MEMORY_SIZE - PROGRAM_START {
        rom.len()
    } else {
        MEMORY_SIZE - PROGRAM_START
    };
    let mut i: usize = 0;
    while i < count
        invariant
            i <= count,
            count == loaded_len(rom@.len() as int),
            mem@.len() == MEMORY_SIZE,
            forall|k: int|
                0 <= k < MEMORY_SIZE ==> #[trigger] mem@[k] == if PROGRAM_START <= k
                    < PROGRAM_START + i {
                    rom@[k - PROGRAM_START]
                } else {
                    old(mem)@[k]
                },
        decreases count - i,
    {
        mem[PROGRAM_START + i] = rom[i];
        i = i + 1;
    }
    assert(mem@ =~= loaded_memory(old(mem)@, rom@));
}

/// The two bytes at `pc` and `pc + 1`, read as one big-endian word.
pub open spec fn word_at(mem: Seq<u8>, pc: int) -> u16 {
    (mem[pc] as int * 256 + mem[pc + 1] as int) as u16
}

proof fn lemma_combine_bytes(hi: u8, lo: u8)
    ensures
        (((hi as u16) << 8u16) | (lo as u16)) == hi as int * 256 + lo as int,
{
    assert((((hi as u16) << 8u16) | (lo as u16)) == hi as int * 256 + lo as int) by (bit_vector);
}

/// Reads the instruction at the program counter and moves the program
/// counter past it.
pub fn fetch_opcode(mem: &Vec<u8>, pc: &mut u16) -> (opc: u16)
    requires
        mem@.len() == MEMORY_SIZE,
        *old(pc) as int + 1 < MEMORY_SIZE,
    ensures
        opc == word_at(mem@, *old(pc) as int),
        opc == mem@[*old(pc) as int] as int * 256 + mem@[*old(pc) as int + 1] as int,
        *final(pc) == *old(pc) + 2,
{
    let mut opc: u16;
    opc = mem[*pc as usize] as u16;
    opc = opc << 8u16;
    opc = opc | mem[(*pc + 1) as usize] as u16;
    proof {
        lemma_combine_bytes(mem@[*pc as int], mem@[*pc as int + 1]);
    }
    *pc = *pc + 2;
    opc
}

} // verus!
