# chip8

A CHIP-8 interpreter whose core is verified with Verus.

- `src/display_buffer.rs`: the 64x32 frame buffer and XOR sprite drawing
  (with clipping at the right and bottom edges and collision detection).
- `src/machine.rs`: the machine state as mathematical values and the meaning
  of every instruction (`step`), together with `can_step`, the condition under
  which an instruction can run.
- `src/cpu.rs`: `Chip8VM`, the executable interpreter, proved to follow
  `step`; random bytes come from the `rand` crate.
- `src/keypad.rs`: the keyboard layout of the hexadecimal keypad.
- `src/emulator.rs`: the interpreter and its display packaged for a front end.
- `src/properties.rs`: facts about running instructions (subroutine calls
  return, stored registers load back, drawing twice erases, ...).
- `app/`: the desktop front end (window and keyboard through `minifb`) and,
  for the `wasm32` target, the JavaScript exports.
