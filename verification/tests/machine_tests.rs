use chip8::display::{
    doodle_cells, op_00E0, op_DXYN, pixel_color, Rgb, CHIP_8_WIDTH, SCREEN_SCALAR, SCREEN_SIZE,
};
use chip8::font::{store_hex_digits, FONT_SIZE};
use chip8::keypad::{keypad_from_keys, keypad_index, KeyName};
use chip8::machine::{Beep, Chip8, CycleOutput};
use chip8::memory::{fetch_opcode, rst, MEMORY_SIZE, PROGRAM_START};
use chip8::opcode::{addr_nnn, byte_nn, class_of, nibble_n, reg_x, reg_y};
use chip8::ops::{
    op_00EE, op_1NNN, op_2NNN, op_3XNN, op_4XNN, op_5XY0, op_6XNN, op_7XNN, op_8XY0, op_8XY1,
    op_8XY2, op_8XY3, op_8XY4, op_8XY5, op_8XY6, op_8XY7, op_8XYE, op_9XY0, op_ANNN, op_BNNN,
    op_CXNN, op_EX9E, op_EXA1, op_FX07, op_FX0A, op_FX15, op_FX18, op_FX1E, op_FX29, op_FX33,
    op_FX55, op_FX65,
};

fn machine_with(program: &[u8]) -> Chip8 {
    Chip8::new(program)
}

#[test]
fn fetch_reads_big_endian_word() {
    let mut mem = vec![0u8; MEMORY_SIZE];
    mem[0x200] = 0x12;
    mem[0x201] = 0x34;
    let mut pc: u16 = 0x200;
    let opc = fetch_opcode(&mem, &mut pc);
    assert_eq!(opc, 0x1234);
    assert_eq!(pc, 0x202);
}

#[test]
fn fetch_at_last_word() {
    let mut mem = vec![0u8; MEMORY_SIZE];
    mem[0xFFC] = 0xAB;
    mem[0xFFD] = 0xCD;
    let mut pc: u16 = 0xFFC;
    assert_eq!(fetch_opcode(&mem, &mut pc), 0xABCD);
    assert_eq!(pc, 0xFFE);
}

#[test]
fn font_goes_to_start_of_memory() {
    let mut mem = vec![7u8; MEMORY_SIZE];
    store_hex_digits(&mut mem);
    assert_eq!(&mem[0..5], &[0xF0, 0x90, 0x90, 0x90, 0xF0]);
    assert_eq!(&mem[75..80], &[0xF0, 0x80, 0xF0, 0x80, 0x80]);
    assert_eq!(mem[FONT_SIZE], 7);
    assert_eq!(mem[MEMORY_SIZE - 1], 7);
}

#[test]
fn rst_loads_program_and_resets() {
    let mut mem = vec![9u8; MEMORY_SIZE];
    let mut adr: u16 = 0x123;
    let mut pc: u16 = 0x456;
    rst(&mut mem, &mut adr, &mut pc, &[1, 2, 3]);
    assert_eq!(adr, 0);
    assert_eq!(pc, 0x200);
    assert_eq!(&mem[0x200..0x203], &[1, 2, 3]);
    assert_eq!(mem[0x1FF], 9);
    assert_eq!(mem[0x203], 9);
}

#[test]
fn rst_cuts_oversized_program() {
    let mut mem = vec![0u8; MEMORY_SIZE];
    let mut adr: u16 = 0;
    let mut pc: u16 = 0;
    let rom = vec![5u8; 5000];
    rst(&mut mem, &mut adr, &mut pc, &rom);
    assert!(mem[PROGRAM_START..].iter().all(|b| *b == 5));
    assert_eq!(mem.len(), MEMORY_SIZE);
}

#[test]
fn opcode_fields() {
    assert_eq!(reg_x(0x8AB4), 0xA);
    assert_eq!(reg_y(0x8AB4), 0xB);
    assert_eq!(nibble_n(0x8AB4), 4);
    assert_eq!(byte_nn(0x6A7F), 0x7F);
    assert_eq!(addr_nnn(0x1ABC), 0xABC);
    assert_eq!(class_of(0xD123), 0xD);
}

#[test]
fn clear_screen() {
    let mut vram = vec![1u8; SCREEN_SIZE];
    op_00E0(&mut vram);
    assert_eq!(vram, vec![0u8; SCREEN_SIZE]);
}

#[test]
fn call_and_return() {
    let mut pc: u16 = 0x204;
    let mut stack: Vec<u16> = vec![0x300];
    op_2NNN(&mut pc, 0x2ABC, &mut stack);
    assert_eq!(pc, 0xABC);
    assert_eq!(stack, vec![0x300, 0x204]);
    op_00EE(&mut pc, &mut stack);
    assert_eq!(pc, 0x204);
    assert_eq!(stack, vec![0x300]);
}

#[test]
fn jump() {
    let mut pc: u16 = 0x200;
    op_1NNN(&mut pc, 0x1345);
    assert_eq!(pc, 0x345);
}

#[test]
fn skips_on_immediate() {
    let mut regs = [0u8; 16];
    regs[3] = 0x42;
    let mut pc: u16 = 0x200;
    op_3XNN(&mut pc, 0x3342, &regs);
    assert_eq!(pc, 0x202);
    op_3XNN(&mut pc, 0x3341, &regs);
    assert_eq!(pc, 0x202);
    op_4XNN(&mut pc, 0x4342, &regs);
    assert_eq!(pc, 0x202);
    op_4XNN(&mut pc, 0x4341, &regs);
    assert_eq!(pc, 0x204);
}

#[test]
fn skips_on_registers() {
    let mut regs = [0u8; 16];
    regs[1] = 5;
    regs[2] = 5;
    regs[3] = 6;
    let mut pc: u16 = 0x200;
    op_5XY0(&mut pc, 0x5120, &regs);
    assert_eq!(pc, 0x202);
    op_5XY0(&mut pc, 0x5130, &regs);
    assert_eq!(pc, 0x202);
    op_9XY0(&mut pc, 0x9120, &regs);
    assert_eq!(pc, 0x202);
    op_9XY0(&mut pc, 0x9130, &regs);
    assert_eq!(pc, 0x204);
}

#[test]
fn load_and_add_immediate() {
    let mut regs = [0u8; 16];
    op_6XNN(0x6AFF, &mut regs);
    assert_eq!(regs[0xA], 0xFF);
    op_7XNN(0x7A02, &mut regs);
    assert_eq!(regs[0xA], 0x01);
    assert_eq!(regs[0xF], 0);
}

#[test]
fn logic_ops() {
    let mut regs = [0u8; 16];
    regs[1] = 0b1100;
    regs[2] = 0b1010;
    let mut r = regs;
    op_8XY0(0x8120, &mut r);
    assert_eq!(r[1], 0b1010);
    let mut r = regs;
    op_8XY1(0x8121, &mut r);
    assert_eq!(r[1], 0b1110);
    let mut r = regs;
    op_8XY2(0x8122, &mut r);
    assert_eq!(r[1], 0b1000);
    let mut r = regs;
    op_8XY3(0x8123, &mut r);
    assert_eq!(r[1], 0b0110);
}

#[test]
fn add_with_carry() {
    let mut regs = [0u8; 16];
    regs[1] = 200;
    regs[2] = 100;
    op_8XY4(0x8124, &mut regs);
    assert_eq!(regs[1], 44);
    assert_eq!(regs[0xF], 1);
    regs[1] = 1;
    regs[2] = 2;
    op_8XY4(0x8124, &mut regs);
    assert_eq!(regs[1], 3);
    assert_eq!(regs[0xF], 0);
}

#[test]
fn subtract_flags() {
    let mut regs = [0u8; 16];
    regs[1] = 10;
    regs[2] = 3;
    op_8XY5(0x8125, &mut regs);
    assert_eq!(regs[1], 7);
    assert_eq!(regs[0xF], 1);
    regs[1] = 3;
    regs[2] = 3;
    op_8XY5(0x8125, &mut regs);
    assert_eq!(regs[1], 0);
    assert_eq!(regs[0xF], 0);
    regs[1] = 3;
    regs[2] = 10;
    op_8XY5(0x8125, &mut regs);
    assert_eq!(regs[1], 249);
    assert_eq!(regs[0xF], 0);

    regs[1] = 3;
    regs[2] = 10;
    op_8XY7(0x8127, &mut regs);
    assert_eq!(regs[1], 7);
    assert_eq!(regs[0xF], 1);
    regs[1] = 10;
    regs[2] = 3;
    op_8XY7(0x8127, &mut regs);
    assert_eq!(regs[1], 249);
    assert_eq!(regs[0xF], 0);
}

#[test]
fn shifts_read_vy() {
    let mut regs = [0u8; 16];
    regs[2] = 0b1000_0011;
    op_8XY6(0x8126, &mut regs);
    assert_eq!(regs[1], 0b0100_0001);
    assert_eq!(regs[0xF], 1);
    op_8XYE(0x812E, &mut regs);
    assert_eq!(regs[1], 0b0000_0110);
    assert_eq!(regs[0xF], 1);
    regs[2] = 0b0100_0000;
    op_8XYE(0x812E, &mut regs);
    assert_eq!(regs[1], 0b1000_0000);
    assert_eq!(regs[0xF], 0);
}

#[test]
fn flag_register_as_target() {
    let mut regs = [0u8; 16];
    regs[0xF] = 200;
    regs[1] = 100;
    op_8XY4(0x8F14, &mut regs);
    assert_eq!(regs[0xF], 1);
}

#[test]
fn address_ops() {
    let mut regs = [0u8; 16];
    regs[0] = 0x10;
    regs[5] = 3;
    let mut i: u16 = 0;
    op_ANNN(&mut i, 0xA123);
    assert_eq!(i, 0x123);
    op_FX1E(&mut i, 0xF51E, &regs);
    assert_eq!(i, 0x126);
    op_FX29(&mut i, 0xF529, &regs);
    assert_eq!(i, 15);
    let mut pc: u16 = 0;
    op_BNNN(&mut pc, 0xB300, &regs);
    assert_eq!(pc, 0x310);
}

#[test]
fn random_is_masked() {
    let mut regs = [0u8; 16];
    op_CXNN(0xC30F, &mut regs, 0xAB);
    assert_eq!(regs[3], 0x0B);
}

#[test]
fn keypad_skips_use_x_nibble() {
    let mut keypad = [false; 16];
    keypad[4] = true;
    let mut pc: u16 = 0x200;
    op_EX9E(&mut pc, 0xE49E, &keypad);
    assert_eq!(pc, 0x202);
    op_EX9E(&mut pc, 0xE59E, &keypad);
    assert_eq!(pc, 0x202);
    op_EXA1(&mut pc, 0xE4A1, &keypad);
    assert_eq!(pc, 0x202);
    op_EXA1(&mut pc, 0xE5A1, &keypad);
    assert_eq!(pc, 0x204);
}

#[test]
fn timers_and_key_wait_ops() {
    let mut regs = [0u8; 16];
    regs[2] = 60;
    let mut delay: u8 = 0;
    let mut sound: u8 = 0;
    op_FX15(&mut delay, 0xF215, &regs);
    op_FX18(&mut sound, 0xF218, &regs);
    assert_eq!(delay, 60);
    assert_eq!(sound, 60);
    op_FX07(17, 0xF307, &mut regs);
    assert_eq!(regs[3], 17);
    let mut wait = false;
    let mut key_reg: usize = 0;
    op_FX0A(&mut wait, &mut key_reg, 0xF70A);
    assert!(wait);
    assert_eq!(key_reg, 7);
}

#[test]
fn bcd() {
    let mut regs = [0u8; 16];
    regs[4] = 254;
    let mut mem = vec![0u8; MEMORY_SIZE];
    op_FX33(0x300, 0xF433, &regs, &mut mem);
    assert_eq!(&mem[0x300..0x303], &[2, 5, 4]);
    regs[4] = 7;
    op_FX33(0x300, 0xF433, &regs, &mut mem);
    assert_eq!(&mem[0x300..0x303], &[0, 0, 7]);
}

#[test]
fn store_and_load_registers() {
    let mut regs = [0u8; 16];
    for k in 0..16 {
        regs[k] = (k as u8) * 3 + 1;
    }
    let mut mem = vec![0u8; MEMORY_SIZE];
    let mut i: u16 = 0x400;
    op_FX55(&mut i, 0xF355, &regs, &mut mem);
    assert_eq!(&mem[0x400..0x405], &[1, 4, 7, 10, 0]);
    assert_eq!(i, 0x404);
    let mut back = [0u8; 16];
    let mut j: u16 = 0x400;
    op_FX65(&mut j, 0xF365, &mut back, &mem);
    assert_eq!(&back[0..4], &[1, 4, 7, 10]);
    assert_eq!(back[4], 0);
    assert_eq!(j, 0x404);
}

#[test]
fn draw_sprite_and_collide() {
    let mut mem = vec![0u8; MEMORY_SIZE];
    store_hex_digits(&mut mem);
    let mut regs = [0u8; 16];
    regs[1] = 2;
    regs[2] = 3;
    let mut vram = vec![0u8; SCREEN_SIZE];
    // the sprite of 0 at I = 0, five rows
    op_DXYN(0, 0xD125, &mut regs, &mut vram, &mem);
    assert_eq!(regs[0xF], 0);
    assert_eq!(vram[3 * CHIP_8_WIDTH + 2], 1);
    assert_eq!(vram[3 * CHIP_8_WIDTH + 5], 1);
    assert_eq!(vram[3 * CHIP_8_WIDTH + 6], 0);
    assert_eq!(vram[4 * CHIP_8_WIDTH + 2], 1);
    assert_eq!(vram[4 * CHIP_8_WIDTH + 3], 0);
    let lit: usize = vram.iter().map(|p| *p as usize).sum();
    assert_eq!(lit, 14);
    // drawing again erases it and reports the collision
    op_DXYN(0, 0xD125, &mut regs, &mut vram, &mem);
    assert_eq!(regs[0xF], 1);
    assert_eq!(vram, vec![0u8; SCREEN_SIZE]);
}

#[test]
fn draw_wraps_around_edges() {
    let mut mem = vec![0u8; MEMORY_SIZE];
    mem[0x300] = 0xFF;
    let mut regs = [0u8; 16];
    regs[1] = 60;
    regs[2] = 31;
    let mut vram = vec![0u8; SCREEN_SIZE];
    op_DXYN(0x300, 0xD121, &mut regs, &mut vram, &mem);
    for x in [60, 61, 62, 63, 0, 1, 2, 3] {
        assert_eq!(vram[31 * CHIP_8_WIDTH + x], 1);
    }
    assert_eq!(vram[31 * CHIP_8_WIDTH + 4], 0);
    assert_eq!(vram[0], 0);
}

#[test]
fn draw_with_zero_rows_only_clears_flag() {
    let mem = vec![0u8; MEMORY_SIZE];
    let mut regs = [0u8; 16];
    regs[0xF] = 1;
    let mut vram = vec![0u8; SCREEN_SIZE];
    op_DXYN(0xFFF, 0xD120, &mut regs, &mut vram, &mem);
    assert_eq!(regs[0xF], 0);
    assert_eq!(vram, vec![0u8; SCREEN_SIZE]);
}

#[test]
fn keyboard_layout() {
    assert_eq!(keypad_index(KeyName::X), Some(0));
    assert_eq!(keypad_index(KeyName::U), Some(1));
    assert_eq!(keypad_index(KeyName::P), Some(0xC));
    assert_eq!(keypad_index(KeyName::V), Some(0xF));
    assert_eq!(keypad_index(KeyName::Other), None);
    let keypad = keypad_from_keys(&vec![KeyName::Other, KeyName::W, KeyName::F]);
    let mut expected = [false; 16];
    expected[5] = true;
    expected[0xE] = true;
    assert_eq!(keypad, expected);
    assert_eq!(keypad_from_keys(&vec![]), [false; 16]);
}

#[test]
fn screen_cells() {
    assert_eq!(pixel_color(1), Rgb { r: 255, g: 255, b: 255 });
    assert_eq!(pixel_color(0), Rgb { r: 0, g: 0, b: 0 });
    assert_eq!(pixel_color(2), Rgb { r: 255, g: 0, b: 0 });
    let mut vram = vec![0u8; SCREEN_SIZE];
    vram[65] = 1;
    let cells = doodle_cells(&vram);
    assert_eq!(cells.len(), SCREEN_SIZE);
    assert_eq!(cells[65].x, 20);
    assert_eq!(cells[65].y, 20);
    assert_eq!(cells[65].size, SCREEN_SCALAR as u32);
    assert_eq!(cells[65].color, Rgb { r: 255, g: 255, b: 255 });
    assert_eq!(cells[SCREEN_SIZE - 1].x, 63 * 20);
    assert_eq!(cells[SCREEN_SIZE - 1].y, 31 * 20);
    assert_eq!(cells[0].color, Rgb { r: 0, g: 0, b: 0 });
}

#[test]
fn new_machine_start_state() {
    let m = machine_with(&[0x60, 0x05]);
    assert_eq!(m.program_counter, 0x200);
    assert_eq!(m.address_i, 0);
    assert_eq!(&m.memory[0..5], &[0xF0, 0x90, 0x90, 0x90, 0xF0]);
    assert_eq!(&m.memory[0x200..0x202], &[0x60, 0x05]);
    assert_eq!(m.memory[0x202], 0);
    assert_eq!(m.registers, [0u8; 16]);
    assert!(m.stack.is_empty());
    assert!(!m.key_wait);
    assert_eq!(m.screen, vec![0u8; SCREEN_SIZE]);
}

#[test]
fn cycle_runs_an_instruction_and_counts_timers() {
    // V1 = 5; sound timer = V1; V2 = delay timer
    let mut m = machine_with(&[0x61, 0x05, 0xF1, 0x18, 0xF1, 0x15, 0xF2, 0x07]);
    let keypad = [false; 16];
    assert!(m.can_cycle());
    let out = m.cycle(&keypad, 0);
    assert_eq!(out, CycleOutput { redraw: false, beep: Beep::Stop });
    assert_eq!(m.registers[1], 5);
    assert_eq!(m.program_counter, 0x202);
    let out = m.cycle(&keypad, 0);
    assert_eq!(out.beep, Beep::Start);
    assert_eq!(m.sound_timer, 4);
    let out = m.cycle(&keypad, 0);
    assert_eq!(out.beep, Beep::Start);
    assert_eq!(m.sound_timer, 3);
    assert_eq!(m.delay_timer, 4);
    m.cycle(&keypad, 0);
    assert_eq!(m.registers[2], 4);
    assert_eq!(m.delay_timer, 3);
}

#[test]
fn cycle_redraws_after_sprite() {
    // I = font of 0; draw it at (V0, V0)
    let mut m = machine_with(&[0xA0, 0x00, 0xD0, 0x05]);
    let keypad = [false; 16];
    assert!(!m.cycle(&keypad, 0).redraw);
    assert!(m.cycle(&keypad, 0).redraw);
    assert_eq!(m.screen[0], 1);
}

#[test]
fn cycle_waits_for_key() {
    let mut m = machine_with(&[0xF5, 0x0A, 0x60, 0x01]);
    let mut keypad = [false; 16];
    m.sound_timer = 2;
    let out = m.cycle(&keypad, 0);
    assert!(m.key_wait);
    assert_eq!(out.beep, Beep::Start);
    assert_eq!(m.sound_timer, 1);
    let before_pc = m.program_counter;
    let out = m.cycle(&keypad, 0);
    assert_eq!(out, CycleOutput { redraw: false, beep: Beep::Keep });
    assert!(m.key_wait);
    assert_eq!(m.program_counter, before_pc);
    assert_eq!(m.sound_timer, 1);
    keypad[9] = true;
    keypad[12] = true;
    m.cycle(&keypad, 0);
    assert!(!m.key_wait);
    assert_eq!(m.registers[5], 9);
    m.cycle(&keypad, 0);
    assert_eq!(m.registers[0], 1);
}

#[test]
fn step_masks_random_byte() {
    let mut m = machine_with(&[0xC3, 0x0F, 0xC4, 0x00]);
    let keypad = [false; 16];
    if m.step(&keypad).is_some() {
        assert!(m.registers[3] <= 0x0F);
        assert_eq!(m.program_counter, 0x202);
        if m.step(&keypad).is_some() {
            assert_eq!(m.registers[4], 0);
        }
    }
}

#[test]
fn step_without_random_instruction_always_runs() {
    let mut m = machine_with(&[0x61, 0x05, 0xF1, 0x18]);
    let keypad = [false; 16];
    let out = m.step(&keypad);
    assert_eq!(out, Some(CycleOutput { redraw: false, beep: Beep::Stop }));
    assert_eq!(m.registers[1], 5);
    let out = m.step(&keypad);
    assert_eq!(out, Some(CycleOutput { redraw: false, beep: Beep::Start }));
    assert_eq!(m.sound_timer, 4);
}

#[test]
fn cannot_cycle_on_faulting_instructions() {
    let keypad = [false; 16];
    // 0x0123: no such instruction
    let m = machine_with(&[0x01, 0x23]);
    assert!(!m.can_cycle());
    // return with an empty stack
    let m = machine_with(&[0x00, 0xEE]);
    assert!(!m.can_cycle());
    // 8XY8: no such instruction
    let m = machine_with(&[0x81, 0x28]);
    assert!(!m.can_cycle());
    // EX00, FX00: no such instruction
    assert!(!machine_with(&[0xE1, 0x00]).can_cycle());
    assert!(!machine_with(&[0xF1, 0x00]).can_cycle());
    // program counter at the last byte of memory
    let mut m = machine_with(&[]);
    m.program_counter = (MEMORY_SIZE - 1) as u16;
    assert!(!m.can_cycle());
    // FX33 at the end of memory
    let mut m = machine_with(&[0xF1, 0x33]);
    m.address_i = (MEMORY_SIZE - 2) as u16;
    assert!(!m.can_cycle());
    // FX55 reaching past memory
    let mut m = machine_with(&[0xF3, 0x55]);
    m.address_i = (MEMORY_SIZE - 3) as u16;
    assert!(!m.can_cycle());
    m.address_i = (MEMORY_SIZE - 4) as u16;
    assert!(m.can_cycle());
    // a waiting machine can always run
    let mut m = machine_with(&[0x00, 0x00]);
    m.key_wait = true;
    m.program_counter = (MEMORY_SIZE - 1) as u16;
    assert!(m.can_cycle());
    let _ = keypad;
}

#[test]
fn clear_then_return_program() {
    // 2206: call 0x206; at 0x206: 00E0, 00EE; back at 0x202: 1202 loops
    let mut m = machine_with(&[0x22, 0x06, 0x12, 0x02, 0x00, 0x00, 0x00, 0xE0, 0x00, 0xEE]);
    let keypad = [false; 16];
    m.screen[10] = 1;
    m.cycle(&keypad, 0);
    assert_eq!(m.program_counter, 0x206);
    assert_eq!(m.stack, vec![0x202]);
    m.cycle(&keypad, 0);
    assert_eq!(m.screen[10], 0);
    m.cycle(&keypad, 0);
    assert_eq!(m.program_counter, 0x202);
    assert!(m.stack.is_empty());
    m.cycle(&keypad, 0);
    assert_eq!(m.program_counter, 0x202);
}

#[test]
fn font_address_points_at_digit_sprite() {
    // V2 = 3; I = sprite of V2
    let mut m = machine_with(&[0x62, 0x03, 0xF2, 0x29]);
    let keypad = [false; 16];
    m.cycle(&keypad, 0);
    m.cycle(&keypad, 0);
    assert_eq!(m.address_i, 15);
    let i = m.address_i as usize;
    assert_eq!(&m.memory[i..i + 5], &[0xF0, 0x10, 0xF0, 0x10, 0xF0]);
}

#[test]
fn keyboard_layout_is_one_to_one() {
    let keys = [
        KeyName::U, KeyName::I, KeyName::O, KeyName::P, KeyName::Q, KeyName::W, KeyName::E,
        KeyName::R, KeyName::A, KeyName::S, KeyName::D, KeyName::F, KeyName::Z, KeyName::X,
        KeyName::C, KeyName::V,
    ];
    let mut seen = [false; 16];
    for k in keys {
        let i = keypad_index(k).unwrap();
        assert!(!seen[i]);
        seen[i] = true;
    }
    assert_eq!(seen, [true; 16]);
}

#[test]
fn store_move_back_load_round_trip() {
    // V0..V2 = 7, 8, 9; I = 0x500; store; I = 0x500; clear V0..V2; load
    let mut m = machine_with(&[
        0x60, 0x07, 0x61, 0x08, 0x62, 0x09, 0xA5, 0x00, 0xF2, 0x55, 0xA5, 0x00, 0x60, 0x00,
        0x61, 0x00, 0x62, 0x00, 0xF2, 0x65,
    ]);
    let keypad = [false; 16];
    for _ in 0..10 {
        assert!(m.can_cycle());
        m.cycle(&keypad, 0);
    }
    assert_eq!(&m.registers[0..3], &[7, 8, 9]);
    assert_eq!(m.address_i, 0x503);
}

#[test]
fn every_digit_has_its_own_sprite() {
    let mut mem = vec![0u8; MEMORY_SIZE];
    store_hex_digits(&mut mem);
    assert_eq!(&mem[5..10], &[0x20, 0x60, 0x20, 0x20, 0x70]);
    for a in 0..16 {
        for b in (a + 1)..16 {
            assert_ne!(&mem[5 * a..5 * a + 5], &mem[5 * b..5 * b + 5]);
        }
    }
}
