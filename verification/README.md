# chip8

The core of a CHIP-8 interpreter, verified with Verus: the machine state, the
instruction set, sprite drawing, the timers, key waiting and the keyboard
layout. Each instruction has a contract, and one interpreter cycle is specified
as a function from state, keys held down and random byte to the next state and
what the window and speaker should do.

- `src/opcode.rs`: the fields of an opcode.
- `src/memory.rs`: fetching instructions, loading a program.
- `src/font.rs`: the built-in hexadecimal font.
- `src/ops.rs`: the instructions on registers, timers, stack and memory.
- `src/display.rs`: the screen, clearing it and drawing sprites.
- `src/sprite.rs`: drawing pixel by pixel.
- `src/keypad.rs`: the keypad and the keys that stand for it.
- `src/machine.rs`: the machine state and one cycle.
- `src/laws.rs`: properties that span instructions and cycles.
- `app/main.rs`: the SDL window, keyboard, speaker and main loop.
