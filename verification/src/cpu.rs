//! The CHIP-8 interpreter: memory, registers, stack, timers and keypad, and
//! the fetch-decode-execute step.

use vstd::prelude::*;

use crate::display_buffer::DisplayBuffer;
pub use crate::display_buffer::{WIDTH, HEIGHT, PIXEL_COLOR, BG_COLOR};
use crate::machine::{
    Machine, FONT, FONT_START, MEMORY_SIZE, PROGRAM_START, STACK_SIZE, initial_machine,
    initial_memory, loaded_memory, ticked, well_formed, first_pressed, sprite_rows, arith_defined,
    arith, draw, misc_defined, misc, can_step, step, is_random,
};
use crate::display_buffer::sprite_fits;

verus! {

/// The interpreter.
pub struct Chip8VM {
    pub(crate) memory: [u8; 4096],
    pub(crate) v_general_registers: [u8; 16],
    pub(crate) i_register: u16,
    pub delay_timer: u8,
    pub sound_timer: u8,
    pub(crate) program_counter: u16,
    pub(crate) stack_pointer: u8,
    pub(crate) stack: [u16; 20],
    /// Which of the sixteen keys are held down; set by whoever reads the
    /// keyboard.
    pub keys: [bool; 16],
    /// Set when an instruction changed the display; the caller redraws and
    /// clears it.
    pub draw: bool,
}

impl View for Chip8VM {
    type V = Machine;

    closed spec fn view(&self) -> Machine {
        Machine {
            memory: self.memory@,
            v: self.v_general_registers@,
            i: self.i_register,
            delay_timer: self.delay_timer,
            sound_timer: self.sound_timer,
            pc: self.program_counter,
            sp: self.stack_pointer,
            stack: self.stack@,
            keys: self.keys@,
            draw: self.draw,
        }
    }
}

/// An interpreter's memory, registers, stack and keypad have the sizes of the
/// hardware.
pub proof fn lemma_well_formed(vm: &Chip8VM)
    ensures
        well_formed(vm@),
{
}

/// The public fields of the interpreter are the corresponding parts of its
/// view.
pub(crate) proof fn lemma_public_fields(vm: &Chip8VM)
    ensures
        vm@.delay_timer == vm.delay_timer,
        vm@.sound_timer == vm.sound_timer,
        vm@.keys == vm.keys@,
        vm@.draw == vm.draw,
{
}

/// Changing only the public fields of the interpreter changes only those
/// parts of its view.
pub(crate) proof fn lemma_public_fields_update(before: &Chip8VM, after: &Chip8VM)
    requires
        after.memory == before.memory,
        after.v_general_registers == before.v_general_registers,
        after.i_register == before.i_register,
        after.program_counter == before.program_counter,
        after.stack_pointer == before.stack_pointer,
        after.stack == before.stack,
    ensures
        after@ == (Machine {
            delay_timer: after.delay_timer,
            sound_timer: after.sound_timer,
            keys: after.keys@,
            draw: after.draw,
            ..before@
        }),
{
}

/// Calls `rand::random::<u8>()`: a byte drawn from the `rand` crate's
/// thread-local generator. The value is chance: nothing is claimed of it
/// beyond its type.
#[verifier::external_body]
fn random_byte() -> u8 {
    rand::random::<u8>()
}

/// The fields of an instruction, cut out of its two bytes with masks and
/// shifts, are the nibbles and bytes the machine model speaks of.
proof fn lemma_decode(hi: u8, lo: u8)
    ensures
        ({
            let op: u16 = ((hi as u16) << 8u16) | (lo as u16);
            &&& (op & 0xF000u16) >> 12u16 == (hi / 16) as u16
            &&& op & 0x0FFFu16 == ((hi % 16) as int * 256 + lo) as u16
            &&& (op & 0x000Fu16) as u8 == lo % 16
            &&& ((op & 0x0F00u16) >> 8u16) as u8 == hi % 16
            &&& ((op & 0x00F0u16) >> 4u16) as u8 == lo / 16
            &&& (op & 0x00FFu16) as u8 == lo
        }),
{
    let op: u16 = ((hi as u16) << 8u16) | (lo as u16);
    assert((op & 0xF000u16) >> 12u16 == (hi / 16) as u16) by (bit_vector)
        requires
            op == ((hi as u16) << 8u16) | (lo as u16),
    ;
    assert(op & 0x0FFFu16 == ((hi % 16) as u16) * 256u16 + (lo as u16)) by (bit_vector)
        requires
            op == ((hi as u16) << 8u16) | (lo as u16),
    ;
    assert((op & 0x000Fu16) as u8 == lo % 16) by (bit_vector)
        requires
            op == ((hi as u16) << 8u16) | (lo as u16),
    ;
    assert(((op & 0x0F00u16) >> 8u16) as u8 == hi % 16) by (bit_vector)
        requires
            op == ((hi as u16) << 8u16) | (lo as u16),
    ;
    assert(((op & 0x00F0u16) >> 4u16) as u8 == lo / 16) by (bit_vector)
        requires
            op == ((hi as u16) << 8u16) | (lo as u16),
    ;
    assert((op & 0x00FFu16) as u8 == lo) by (bit_vector)
        requires
            op == ((hi as u16) << 8u16) | (lo as u16),
    ;
}

impl Chip8VM {
    /// A machine with the font in memory, all registers, timers, stack and
    /// keys cleared, the program counter at `PROGRAM_START` and the stack
    /// pointer at 15.
    pub fn new() -> (vm: Self)
        ensures
            vm@ == initial_machine(),
    {
        let default_font: [u8; 80] = FONT;
        let mut chip = Chip8VM {
            memory: [0; 4096],
            v_general_registers: [0; 16],
            i_register: 0,
            delay_timer: 0,
            sound_timer: 0,
            program_counter: 0x200,
            stack_pointer: 15,
            stack: [0; 20],
            keys: [false; 16],
            draw: false,
        };
        let mut start_font: usize = FONT_START;
        let mut k: usize = 0;
        while k < 80
            invariant
                k <= 80,
                start_font == FONT_START + k,
                default_font@ == FONT@,
                chip@.memory.len() == MEMORY_SIZE,
                forall|j: int|
                    0 <= j < MEMORY_SIZE ==> #[trigger] chip@.memory[j] == if FONT_START <= j
                        < FONT_START + k {
                        FONT@[j - FONT_START]
                    } else {
                        0u8
                    },
                chip@.v =~= Seq::new(16, |k: int| 0u8),
                chip@.stack =~= Seq::new(STACK_SIZE as nat, |k: int| 0u16),
                chip@.keys =~= Seq::new(16, |k: int| false),
                chip.i_register == 0,
                chip.delay_timer == 0,
                chip.sound_timer == 0,
                chip.program_counter == 0x200,
                chip.stack_pointer == 15,
                !chip.draw,
            decreases 80 - k,
        {
            chip.memory[start_font] = default_font[k];
            start_font += 1;
            k += 1;
        }
        assert(chip@.memory =~= initial_memory());
        chip
    }

    /// Copies `program` into memory starting at `PROGRAM_START`; nothing else
    /// changes.
    pub fn load(&mut self, program: Vec<u8>)
        requires
            PROGRAM_START + program@.len() <= MEMORY_SIZE,
        ensures
            final(self)@ == (Machine { memory: loaded_memory(old(self)@.memory, program@), ..old(self)@ }),
    {
        let mut i: usize = 0;
        while i < program.len()
            invariant
                PROGRAM_START + program@.len() <= MEMORY_SIZE,
                i <= program@.len(),
                self@ == (Machine { memory: self@.memory, ..old(self)@ }),
                self@.memory.len() == MEMORY_SIZE,
                forall|j: int|
                    0 <= j < MEMORY_SIZE ==> #[trigger] self@.memory[j] == if PROGRAM_START <= j
                        < PROGRAM_START + i {
                        program@[j - PROGRAM_START]
                    } else {
                        old(self)@.memory[j]
                    },
            decreases program@.len() - i,
        {
            self.memory[512 + i] = program[i];
            i += 1;
        }
        assert(self@.memory =~= loaded_memory(old(self)@.memory, program@));
    }

    /// One tick of the 60 Hz timers: each of the delay and sound timers that
    /// is not zero goes down by one.
    pub fn tick_timers(&mut self)
        ensures
            final(self)@ == (Machine {
                delay_timer: ticked(old(self)@.delay_timer),
                sound_timer: ticked(old(self)@.sound_timer),
                ..old(self)@
            }),
    {
        if self.delay_timer > 0 {
            self.delay_timer -= 1;
        }
        if self.sound_timer > 0 {
            self.sound_timer -= 1;
        }
    }

    /// Executes the arithmetic instruction `8xyn`, the program counter being
    /// already past it.
    fn exec_arith(&mut self, x: u8, y: u8, n: u8)
        requires
            x < 16,
            y < 16,
            well_formed(old(self)@),
            arith_defined(n),
        ensures
            final(self)@ == arith(old(self)@, x as int, y as int, n),
    {
        reveal(arith);
        let xi: usize = x as usize;
        let yi: usize = y as usize;
        if n == 0 {
            // 8xy0 - LD Vx, Vy
            self.v_general_registers[xi] = self.v_general_registers[yi];
        } else if n == 1 {
            // 8xy1 - OR Vx, Vy
            self.v_general_registers[xi] = self.v_general_registers[xi] | self.v_general_registers[yi];
        } else if n == 2 {
            // 8xy2 - AND Vx, Vy
            self.v_general_registers[xi] = self.v_general_registers[xi] & self.v_general_registers[yi];
        } else if n == 3 {
            // 8xy3 - XOR Vx, Vy
            self.v_general_registers[xi] = self.v_general_registers[xi] ^ self.v_general_registers[yi];
        } else if n == 4 {
            // 8xy4 - ADD Vx, Vy: VF is the carry, Vx the low eight bits
            let add: u16 = self.v_general_registers[xi] as u16 + self.v_general_registers[yi] as u16;
            if add > 255 {
                self.v_general_registers[0xF] = 1;
            } else {
                self.v_general_registers[0xF] = 0;
            }
            self.v_general_registers[xi] = (add % 256) as u8;
        } else if n == 5 {
            // 8xy5 - SUB Vx, Vy: VF is set when Vx > Vy
            if self.v_general_registers[xi] > self.v_general_registers[yi] {
                self.v_general_registers[0xF] = 1;
            } else {
                self.v_general_registers[0xF] = 0;
            }
            self.v_general_registers[xi] = self.v_general_registers[xi].wrapping_sub(
                self.v_general_registers[yi],
            );
        } else if n == 6 {
            // 8xy6 - SHR Vx: VF is the bit shifted out
            self.v_general_registers[0xF] = self.v_general_registers[xi] & 0b00000001;
            self.v_general_registers[xi] = self.v_general_registers[xi] / 2;
        } else if n == 7 {
            // 8xy7 - SUBN Vx, Vy: VF is set when Vy > Vx (NOT borrow);
            // Vx = Vy - Vx, modulo 256
            if self.v_general_registers[yi] > self.v_general_registers[xi] {
                self.v_general_registers[0xF] = 1;
            } else {
                self.v_general_registers[0xF] = 0;
            }
            self.v_general_registers[xi] = self.v_general_registers[yi].wrapping_sub(
                self.v_general_registers[xi],
            );
        } else {
            // 8xyE - SHL Vx: VF is the most significant bit of Vx; Vx = 2 * Vx,
            // modulo 256
            self.v_general_registers[0xF] = self.v_general_registers[xi] >> 7u8;
            self.v_general_registers[xi] = self.v_general_registers[xi].wrapping_mul(2);
        }
    }

    /// Executes `Dxyn`, the program counter being already past it.
    fn exec_draw(&mut self, buffer: &mut DisplayBuffer, x: u8, y: u8, n: u8)
        requires
            x < 16,
            y < 16,
            n < 16,
            well_formed(old(self)@),
            n == 0 || old(self)@.i + n <= MEMORY_SIZE,
            sprite_fits(
                old(buffer).0@.len() as int,
                n as int,
                (old(self)@.v[x as int] % (WIDTH as u8)) as int,
                (old(self)@.v[y as int] % (HEIGHT as u8)) as int,
            ),
        ensures
            final(self)@ == draw(old(self)@, old(buffer).0@, x as int, y as int, n).0,
            final(buffer).0@ == draw(old(self)@, old(buffer).0@, x as int, y as int, n).1,
    {
        reveal(draw);
        let mut bytes: Vec<u8> = Vec::new();
        let vx: u8 = self.v_general_registers[x as usize];
        let vy: u8 = self.v_general_registers[y as usize];
        let mut k: u8 = 0;
        while k < n
            invariant
                k <= n,
                n == 0 || self@.i + n <= MEMORY_SIZE,
                self@ == old(self)@,
                well_formed(self@),
                bytes@ =~= sprite_rows(self@, k),
            decreases n - k,
        {
            bytes.push(self.memory[self.i_register as usize + k as usize]);
            k += 1;
        }
        assert(bytes@ =~= sprite_rows(self@, n));
        let collision: bool = buffer.xor_write(bytes, vx as usize % WIDTH, vy as usize % HEIGHT);
        self.v_general_registers[0xF] = collision as u8;
        self.draw = true;
    }

    /// Executes `Fxkk`, the program counter being already past it.
    fn exec_misc(&mut self, x: u8, kk: u8)
        requires
            x < 16,
            well_formed(old(self)@),
            old(self)@.pc >= 2,
            misc_defined(old(self)@, x as int, kk),
        ensures
            final(self)@ == misc(old(self)@, x as int, kk),
    {
        reveal(misc);
        let xi: usize = x as usize;
        if kk == 0x07 {
            // Fx07 - LD Vx, DT
            self.v_general_registers[xi] = self.delay_timer;
        } else if kk == 0x0A {
            // Fx0A - LD Vx, K: take the lowest key that is down; while none
            // is, stay on this instruction
            let mut k: usize = 0;
            while k < 16 && !self.keys[k]
                invariant
                    k <= 16,
                    self@ == old(self)@,
                    well_formed(self@),
                    first_pressed(self@.keys, 0) == first_pressed(self@.keys, k as int),
                decreases 16 - k,
            {
                k += 1;
            }
            if k < 16 {
                self.v_general_registers[xi] = k as u8;
            } else {
                self.program_counter -= 2;
            }
        } else if kk == 0x15 {
            // Fx15 - LD DT, Vx
            self.delay_timer = self.v_general_registers[xi];
        } else if kk == 0x18 {
            // Fx18 - LD ST, Vx
            self.sound_timer = self.v_general_registers[xi];
        } else if kk == 0x1E {
            // Fx1E - ADD I, Vx
            self.i_register = self.i_register + self.v_general_registers[xi] as u16;
        } else if kk == 0x29 {
            // Fx29 - LD F, Vx: I = location of the font sprite for digit Vx
            self.i_register = (FONT_START + 5 * (self.v_general_registers[xi] % 16) as usize) as u16;
        } else if kk == 0x33 {
            // Fx33 - LD B, Vx: the decimal digits of Vx at I, I+1, I+2
            let num: u8 = self.v_general_registers[xi];
            let hundred: u8 = num / 100;
            let ten: u8 = (num % 100) / 10;
            let one: u8 = num % 10;
            self.memory[self.i_register as usize] = hundred;
            self.memory[self.i_register as usize + 1] = ten;
            self.memory[self.i_register as usize + 2] = one;
        } else if kk == 0x55 {
            // Fx55 - LD [I], Vx: store V0 through Vx from I on
            let base: usize = self.i_register as usize;
            let mut vx: usize = 0;
            while vx <= xi
                invariant
                    xi < 16,
                    base == old(self)@.i,
                    base + xi < MEMORY_SIZE,
                    vx <= xi + 1,
                    self@ == (Machine { memory: self@.memory, ..old(self)@ }),
                    well_formed(self@),
                    forall|j: int|
                        0 <= j < MEMORY_SIZE ==> #[trigger] self@.memory[j] == if base <= j < base
                            + vx {
                            old(self)@.v[j - base]
                        } else {
                            old(self)@.memory[j]
                        },
                decreases xi + 1 - vx,
            {
                self.memory[base + vx] = self.v_general_registers[vx];
                vx += 1;
            }
            assert(self@.memory =~= misc(old(self)@, x as int, kk).memory);
        } else {
            // Fx65 - LD Vx, [I]: load V0 through Vx from I on
            let base: usize = self.i_register as usize;
            let mut vx: usize = 0;
            while vx <= xi
                invariant
                    xi < 16,
                    base == old(self)@.i,
                    base + xi < MEMORY_SIZE,
                    vx <= xi + 1,
                    self@ == (Machine { v: self@.v, ..old(self)@ }),
                    well_formed(self@),
                    forall|k: int|
                        0 <= k < 16 ==> #[trigger] self@.v[k] == if k < vx {
                            old(self)@.memory[base + k]
                        } else {
                            old(self)@.v[k]
                        },
                decreases xi + 1 - vx,
            {
                self.v_general_registers[vx] = self.memory[base + vx];
                vx += 1;
            }
            assert(self@.v =~= misc(old(self)@, x as int, kk).v);
        }
    }

    /// Executes the instruction at the program counter, with `random` as the
    /// random byte that `Cxkk` masks with `kk`. The program counter first
    /// moves past the instruction; then:
    /// `00E0` blanks the display and sets `draw`; `00EE` returns from a
    /// subroutine; `1nnn` jumps; `2nnn` calls; `3xkk`, `4xkk`, `5xy0` and
    /// `9xy0` skip the next instruction when Vx equals kk, differs from kk,
    /// equals Vy, and differs from Vy; `6xkk` and `7xkk` load and add (modulo 256);
    /// `8xyn` are the register operations; `Annn` loads I; `Bnnn` jumps to
    /// nnn + V0; `Dxyn` XOR-draws a sprite and sets `draw`; `Ex9E` and `ExA1`
    /// skip when key Vx is down, and is up; `Fxkk` are the timer, key, I and
    /// memory operations, where `Fx0A` stays on the instruction until a key
    /// is down.
    pub fn exec_with(&mut self, buffer: &mut DisplayBuffer, random: u8)
        requires
            can_step(old(self)@, old(buffer).0@.len() as int),
        ensures
            final(self)@ == step(old(self)@, old(buffer).0@, random).0,
            final(buffer).0@ == step(old(self)@, old(buffer).0@, random).1,
    {
        let hi: u8 = self.memory[self.program_counter as usize];
        let lo: u8 = self.memory[self.program_counter as usize + 1];
        let opcode: u16 = ((hi as u16) << 8u16) | (lo as u16);
        proof {
            lemma_decode(hi, lo);
        }
        let first: u16 = (opcode & 0xF000) >> 12;
        let nnn: u16 = opcode & 0x0FFF;
        let n: u8 = (opcode & 0x000F) as u8;
        let x: u8 = ((opcode & 0x0F00) >> 8) as u8;
        let y: u8 = ((opcode & 0x00F0) >> 4) as u8;
        let kk: u8 = (opcode & 0x00FF) as u8;
        let xi: usize = x as usize;
        let yi: usize = y as usize;

        self.program_counter += 2;

        if first == 0x0 {
            if nnn == 0x0E0 {
                // 00E0 - CLS
                buffer.clear();
                self.draw = true;
            } else {
                // 00EE - RET
                self.program_counter = self.stack[self.stack_pointer as usize];
                self.stack_pointer -= 1;
            }
        } else if first == 0x1 {
            // 1nnn - JP addr
            self.program_counter = nnn;
        } else if first == 0x2 {
            // 2nnn - CALL addr
            self.stack_pointer += 1;
            self.stack[self.stack_pointer as usize] = self.program_counter;
            self.program_counter = nnn;
        } else if first == 0x3 {
            // 3xkk - SE Vx, byte
            if self.v_general_registers[xi] == kk {
                self.program_counter += 2;
            }
        } else if first == 0x4 {
            // 4xkk - SNE Vx, byte
            if self.v_general_registers[xi] != kk {
                self.program_counter += 2;
            }
        } else if first == 0x5 {
            // 5xy0 - SE Vx, Vy
            if self.v_general_registers[xi] == self.v_general_registers[yi] {
                self.program_counter += 2;
            }
        } else if first == 0x6 {
            // 6xkk - LD Vx, byte
            self.v_general_registers[xi] = kk;
        } else if first == 0x7 {
            // 7xkk - ADD Vx, byte
            self.v_general_registers[xi] = self.v_general_registers[xi].wrapping_add(kk);
        } else if first == 0x8 {
            self.exec_arith(x, y, n);
        } else if first == 0x9 {
            // 9xy0 - SNE Vx, Vy
            if self.v_general_registers[xi] != self.v_general_registers[yi] {
                self.program_counter += 2;
            }
        } else if first == 0xA {
            // Annn - LD I, addr
            self.i_register = nnn;
        } else if first == 0xB {
            // Bnnn - JP V0, addr
            self.program_counter = nnn + self.v_general_registers[0] as u16;
        } else if first == 0xC {
            // Cxkk - RND Vx, byte
            self.v_general_registers[xi] = random & kk;
        } else if first == 0xD {
            // Dxyn - DRW Vx, Vy, nibble
            self.exec_draw(buffer, x, y, n);
        } else if first == 0xE {
            // Ex9E - SKP Vx; ExA1 - SKNP Vx
            let key: u8 = self.v_general_registers[xi];
            let is_key_down: bool = key < 16 && self.keys[key as usize];
            if kk == 0x9E {
                if is_key_down {
                    self.program_counter += 2;
                }
            } else {
                if !is_key_down {
                    self.program_counter += 2;
                }
            }
        } else {
            self.exec_misc(x, kk);
        }
    }


    /// Executes the instruction at the program counter, as `exec_with` does;
    /// `Cxkk` takes its random byte from the `rand` crate, every other
    /// instruction is determined by the machine and the display alone.
    pub fn exec(&mut self, buffer: &mut DisplayBuffer)
        requires
            can_step(old(self)@, old(buffer).0@.len() as int),
        ensures
            exists|random: u8|
                final(self)@ == step(old(self)@, old(buffer).0@, random).0 && final(buffer).0@
                    == step(old(self)@, old(buffer).0@, random).1,
            !is_random(old(self)@) ==> final(self)@ == step(old(self)@, old(buffer).0@, 0).0
                && final(buffer).0@ == step(old(self)@, old(buffer).0@, 0).1,
    {
        let hi: u8 = self.memory[self.program_counter as usize];
        let random: u8 = if hi / 16 == 0xC {
            random_byte()
        } else {
            0
        };
        self.exec_with(buffer, random);
    }


    /// Whether `exec` can run the instruction at the program counter against
    /// `buffer` (see `can_step`): `false` where the instruction is unknown or
    /// would leave memory, the stack or the registers' range.
    pub fn can_exec(&self, buffer: &DisplayBuffer) -> (ok: bool)
        ensures
            ok == can_step(self@, buffer.0@.len() as int),
    {
        let pc: usize = self.program_counter as usize;
        if pc + 1 >= MEMORY_SIZE {
            return false;
        }
        let hi: u8 = self.memory[pc];
        let lo: u8 = self.memory[pc + 1];
        let first: u8 = hi / 16;
        let xi: usize = (hi % 16) as usize;
        let yi: usize = (lo / 16) as usize;
        let n: u8 = lo % 16;
        let kk: u8 = lo;
        let nnn: u16 = (hi % 16) as u16 * 256 + lo as u16;
        let vx: u8 = self.v_general_registers[xi];
        let vy: u8 = self.v_general_registers[yi];
        let sp: u8 = self.stack_pointer;
        let i: usize = self.i_register as usize;
        if first == 0x0 {
            nnn == 0x0E0 || (nnn == 0x0EE && 1 <= sp && (sp as usize) < STACK_SIZE)
        } else if first == 0x2 {
            (sp as usize) + 1 < STACK_SIZE
        } else if first == 0x8 {
            n <= 7 || n == 0xE
        } else if first == 0xD {
            (n == 0 || i + (n as usize) <= MEMORY_SIZE) && buffer.sprite_in_bounds(
                n as usize,
                (vx % (WIDTH as u8)) as usize,
                (vy % (HEIGHT as u8)) as usize,
            )
        } else if first == 0xE {
            kk == 0x9E || kk == 0xA1
        } else if first == 0xF {
            if kk == 0x1E {
                i + (vx as usize) <= u16::MAX as usize
            } else if kk == 0x33 {
                i + 2 < MEMORY_SIZE
            } else if kk == 0x55 || kk == 0x65 {
                i + xi < MEMORY_SIZE
            } else {
                kk == 0x07 || kk == 0x0A || kk == 0x15 || kk == 0x18 || kk == 0x29
            }
        } else {
            true
        }
    }

}

} // verus!
