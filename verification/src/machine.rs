//! The machine state as mathematical values, and what each instruction does
//! to it.

use vstd::prelude::*;

use crate::display_buffer::{
    blank_display, collides, draw_sprite, sprite_fits, HEIGHT, WIDTH,
};

verus! {

/// Number of bytes of memory.
pub const MEMORY_SIZE: usize = 4096;

/// Address at which programs are loaded and execution starts.
pub const PROGRAM_START: usize = 0x200;

/// Address of the built-in hexadecimal font.
pub const FONT_START: usize = 0x50;

/// Number of entries of the call stack.
pub const STACK_SIZE: usize = 20;

/// The built-in font: five rows of eight cells for each of the digits 0-F.
pub const FONT: [u8; 80] = [
    0xF0, 0x90, 0x90, 0x90, 0xF0, // 0
    0x20, 0x60, 0x20, 0x20, 0x70, // 1
    0xF0, 0x10, 0xF0, 0x80, 0xF0, // 2
    0xF0, 0x10, 0xF0, 0x10, 0xF0, // 3
    0x90, 0x90, 0xF0, 0x10, 0x10, // 4
    0xF0, 0x80, 0xF0, 0x10, 0xF0, // 5
    0xF0, 0x80, 0xF0, 0x90, 0xF0, // 6
    0xF0, 0x10, 0x20, 0x40, 0x40, // 7
    0xF0, 0x90, 0xF0, 0x90, 0xF0, // 8
    0xF0, 0x90, 0xF0, 0x10, 0xF0, // 9
    0xF0, 0x90, 0xF0, 0x90, 0x90, // A
    0xE0, 0x90, 0xE0, 0x90, 0xE0, // B
    0xF0, 0x80, 0x80, 0x80, 0xF0, // C
    0xE0, 0x90, 0x90, 0x90, 0xE0, // D
    0xF0, 0x80, 0xF0, 0x80, 0xF0, // E
    0xF0, 0x80, 0xF0, 0x80, 0x80, // F
];

/// The state of the machine as mathematical values.
#[verifier::ext_equal]
pub struct Machine {
    /// The 4096 bytes of memory.
    pub memory: Seq<u8>,
    /// The sixteen registers V0-VF.
    pub v: Seq<u8>,
    /// The address register I.
    pub i: u16,
    pub delay_timer: u8,
    pub sound_timer: u8,
    /// The program counter.
    pub pc: u16,
    /// Index of the top entry of the call stack.
    pub sp: u8,
    pub stack: Seq<u16>,
    /// Which of the sixteen keys are held down.
    pub keys: Seq<bool>,
    /// Whether the display changed since the flag was last cleared.
    pub draw: bool,
}

/// Memory as the machine starts: the font at `FONT_START`, zero elsewhere.
pub open spec fn initial_memory() -> Seq<u8> {
    Seq::new(
        MEMORY_SIZE as nat,
        |j: int|
            if FONT_START <= j < FONT_START + 80 {
                FONT@[j - FONT_START]
            } else {
                0u8
            },
    )
}

/// The machine as `Chip8VM::new` builds it.
pub open spec fn initial_machine() -> Machine {
    Machine {
        memory: initial_memory(),
        v: Seq::new(16, |k: int| 0u8),
        i: 0,
        delay_timer: 0,
        sound_timer: 0,
        pc: PROGRAM_START as u16,
        sp: 15,
        stack: Seq::new(STACK_SIZE as nat, |k: int| 0u16),
        keys: Seq::new(16, |k: int| false),
        draw: false,
    }
}

/// Memory after a program is copied to `PROGRAM_START`.
pub open spec fn loaded_memory(memory: Seq<u8>, program: Seq<u8>) -> Seq<u8> {
    Seq::new(
        memory.len(),
        |j: int|
            if PROGRAM_START <= j < PROGRAM_START + program.len() {
                program[j - PROGRAM_START]
            } else {
                memory[j]
            },
    )
}

/// A timer after one tick: it counts down to zero and stays there.
pub open spec fn ticked(timer: u8) -> u8 {
    if timer > 0 {
        (timer - 1) as u8
    } else {
        0
    }
}


/// Whether the sequences of the machine have the lengths of the hardware.
pub open spec fn well_formed(m: Machine) -> bool {
    &&& m.memory.len() == MEMORY_SIZE
    &&& m.v.len() == 16
    &&& m.stack.len() == STACK_SIZE
    &&& m.keys.len() == 16
}

/// The first byte of the instruction at the program counter.
pub open spec fn high_byte(m: Machine) -> u8 {
    m.memory[m.pc as int]
}

/// The second byte of the instruction at the program counter.
pub open spec fn low_byte(m: Machine) -> u8 {
    m.memory[m.pc + 1]
}

/// The top four bits of the instruction: its class.
pub open spec fn op_class(m: Machine) -> u8 {
    high_byte(m) / 16
}

/// The register named by the second nibble of the instruction.
pub open spec fn op_x(m: Machine) -> int {
    (high_byte(m) % 16) as int
}

/// The register named by the third nibble of the instruction.
pub open spec fn op_y(m: Machine) -> int {
    (low_byte(m) / 16) as int
}

/// The last nibble of the instruction.
pub open spec fn op_n(m: Machine) -> u8 {
    low_byte(m) % 16
}

/// The low byte of the instruction as an operand.
pub open spec fn op_kk(m: Machine) -> u8 {
    low_byte(m)
}

/// The low twelve bits of the instruction: an address.
pub open spec fn op_nnn(m: Machine) -> u16 {
    ((high_byte(m) % 16) as int * 256 + low_byte(m)) as u16
}

/// The machine with the program counter moved past one instruction.
pub open spec fn advance(m: Machine) -> Machine {
    Machine { pc: (m.pc + 2) as u16, ..m }
}

/// The machine with the next instruction skipped when `cond` holds.
pub open spec fn skip_if(m: Machine, cond: bool) -> Machine {
    if cond {
        advance(m)
    } else {
        m
    }
}

/// The machine with register `idx` set to `val`.
pub open spec fn set_v(m: Machine, idx: int, val: u8) -> Machine {
    Machine { v: m.v.update(idx, val), ..m }
}

/// Whether the key whose number a register holds is down; there are keys
/// 0-F only.
pub open spec fn key_down(m: Machine, key: u8) -> bool {
    key < 16 && m.keys[key as int]
}

/// The lowest-numbered key, from `k` on, that is down.
pub open spec fn first_pressed(keys: Seq<bool>, k: int) -> Option<u8>
    decreases 16 - k,
{
    if k < 0 || k >= 16 {
        None
    } else if keys[k] {
        Some(k as u8)
    } else {
        first_pressed(keys, k + 1)
    }
}

/// The `n` sprite rows that start in memory at the address register.
pub open spec fn sprite_rows(m: Machine, n: u8) -> Seq<u8> {
    Seq::new(n as nat, |k: int| m.memory[m.i + k])
}

/// The machine after a subroutine call to `addr`, made with the program
/// counter already past the call: the stack pointer goes up by one and the
/// return address is stored there.
pub open spec fn call(next: Machine, addr: u16) -> Machine {
    let sp = (next.sp + 1) as u8;
    Machine { sp: sp, stack: next.stack.update(sp as int, next.pc), pc: addr, ..next }
}

/// The machine after a return from a subroutine: the program counter is
/// taken from the top of the stack and the stack pointer goes down by one.
pub open spec fn ret(next: Machine) -> Machine {
    Machine { pc: next.stack[next.sp as int], sp: (next.sp - 1) as u8, ..next }
}

/// Whether the arithmetic instruction `8xyn` is defined: `n` names one of
/// the nine operations.
pub open spec fn arith_defined(n: u8) -> bool {
    n <= 7 || n == 0xE
}

/// The machine after the arithmetic instruction `8xyn`. Where the flag
/// register VF is written, it is written first, and the result is computed
/// from the registers as they are after that write.
#[verifier::opaque]
pub open spec fn arith(next: Machine, x: int, y: int, n: u8) -> Machine {
    let vx = next.v[x];
    let vy = next.v[y];
    if n == 0 {
        set_v(next, x, vy)
    } else if n == 1 {
        set_v(next, x, vx | vy)
    } else if n == 2 {
        set_v(next, x, vx & vy)
    } else if n == 3 {
        set_v(next, x, vx ^ vy)
    } else if n == 4 {
        let sum = vx + vy;
        let f = set_v(next, 15, if sum > 255 { 1u8 } else { 0u8 });
        set_v(f, x, (sum % 256) as u8)
    } else if n == 5 {
        let f = set_v(next, 15, if vx > vy { 1u8 } else { 0u8 });
        set_v(f, x, ((f.v[x] - f.v[y]) % 256) as u8)
    } else if n == 6 {
        let f = set_v(next, 15, vx & 1u8);
        set_v(f, x, f.v[x] / 2)
    } else if n == 7 {
        let f = set_v(next, 15, if vy > vx { 1u8 } else { 0u8 });
        set_v(f, x, ((f.v[y] - f.v[x]) % 256) as u8)
    } else {
        let f = set_v(next, 15, vx >> 7u8);
        set_v(f, x, ((f.v[x] * 2) % 256) as u8)
    }
}

/// The display and the machine after `Dxyn`: the `n`-row sprite at the
/// address register is XOR-drawn at (Vx mod 64, Vy mod 32), VF records
/// whether a lit cell was turned off, and the display is flagged as changed.
#[verifier::opaque]
pub open spec fn draw(next: Machine, disp: Seq<u32>, x: int, y: int, n: u8) -> (Machine, Seq<u32>) {
    let rows = sprite_rows(next, n);
    let cx = (next.v[x] % (WIDTH as u8)) as int;
    let cy = (next.v[y] % (HEIGHT as u8)) as int;
    let hit = collides(disp, rows, cx, cy);
    (
        Machine { draw: true, ..set_v(next, 15, if hit { 1u8 } else { 0u8 }) },
        draw_sprite(disp, rows, cx, cy),
    )
}

/// Whether the instruction `Fxkk` is defined: `kk` names one of the nine
/// operations, and the address register and the memory it points into stay
/// in range.
pub open spec fn misc_defined(next: Machine, x: int, kk: u8) -> bool {
    let vx = next.v[x];
    &&& (kk == 0x07 || kk == 0x0A || kk == 0x15 || kk == 0x18 || kk == 0x1E || kk == 0x29 || kk
        == 0x33 || kk == 0x55 || kk == 0x65)
    &&& kk == 0x1E ==> next.i + vx <= u16::MAX
    &&& kk == 0x33 ==> next.i + 2 < MEMORY_SIZE
    &&& (kk == 0x55 || kk == 0x65) ==> next.i + x < MEMORY_SIZE
}

/// The machine after the instruction `Fxkk`.
#[verifier::opaque]
pub open spec fn misc(next: Machine, x: int, kk: u8) -> Machine {
    let vx = next.v[x];
    if kk == 0x07 {
        set_v(next, x, next.delay_timer)
    } else if kk == 0x0A {
        match first_pressed(next.keys, 0) {
            Some(key) => set_v(next, x, key),
            None => Machine { pc: (next.pc - 2) as u16, ..next },
        }
    } else if kk == 0x15 {
        Machine { delay_timer: vx, ..next }
    } else if kk == 0x18 {
        Machine { sound_timer: vx, ..next }
    } else if kk == 0x1E {
        Machine { i: (next.i + vx) as u16, ..next }
    } else if kk == 0x29 {
        Machine { i: (FONT_START + 5 * (vx % 16)) as u16, ..next }
    } else if kk == 0x33 {
        Machine {
            memory: next.memory.update(next.i as int, vx / 100).update(
                next.i + 1,
                (vx % 100) / 10,
            ).update(next.i + 2, vx % 10),
            ..next
        }
    } else if kk == 0x55 {
        Machine {
            memory: Seq::new(
                next.memory.len(),
                |j: int|
                    if next.i <= j <= next.i + x {
                        next.v[j - next.i]
                    } else {
                        next.memory[j]
                    },
            ),
            ..next
        }
    } else {
        Machine {
            v: Seq::new(
                next.v.len(),
                |k: int|
                    if k <= x {
                        next.memory[next.i + k]
                    } else {
                        next.v[k]
                    },
            ),
            ..next
        }
    }
}

/// Whether the instruction at the program counter can be executed against a
/// display of `disp_len` cells: it is fetched from inside memory, it is one
/// the interpreter knows, and the stack, the registers and memory stay in
/// range while it runs.
pub open spec fn can_step(m: Machine, disp_len: int) -> bool {
    let c = op_class(m);
    let x = op_x(m);
    let y = op_y(m);
    let n = op_n(m);
    let kk = op_kk(m);
    let nnn = op_nnn(m);
    let next = advance(m);
    &&& well_formed(m)
    &&& m.pc + 1 < MEMORY_SIZE
    &&& c == 0x0 ==> (nnn == 0x0E0 || (nnn == 0x0EE && 1 <= m.sp < STACK_SIZE))
    &&& c == 0x2 ==> m.sp + 1 < STACK_SIZE
    &&& c == 0x8 ==> arith_defined(n)
    &&& c == 0xD ==> {
        &&& n == 0 || m.i + n <= MEMORY_SIZE
        &&& sprite_fits(
            disp_len,
            n as int,
            (m.v[x] % (WIDTH as u8)) as int,
            (m.v[y] % (HEIGHT as u8)) as int,
        )
    }
    &&& c == 0xE ==> (kk == 0x9E || kk == 0xA1)
    &&& c == 0xF ==> misc_defined(next, x, kk)
}

/// Whether the instruction at the program counter draws on random bits.
pub open spec fn is_random(m: Machine) -> bool {
    op_class(m) == 0xC
}

/// The machine and the display after executing the instruction at the
/// program counter; `random` is the random byte that `Cxkk` masks.
pub open spec fn step(m: Machine, disp: Seq<u32>, random: u8) -> (Machine, Seq<u32>) {
    let c = op_class(m);
    let x = op_x(m);
    let y = op_y(m);
    let kk = op_kk(m);
    let nnn = op_nnn(m);
    let vx = m.v[x];
    let vy = m.v[y];
    let next = advance(m);
    if c == 0x0 {
        if nnn == 0x0E0 {
            (Machine { draw: true, ..next }, blank_display())
        } else {
            (ret(next), disp)
        }
    } else if c == 0x1 {
        (Machine { pc: nnn, ..next }, disp)
    } else if c == 0x2 {
        (call(next, nnn), disp)
    } else if c == 0x3 {
        (skip_if(next, vx == kk), disp)
    } else if c == 0x4 {
        (skip_if(next, vx != kk), disp)
    } else if c == 0x5 {
        (skip_if(next, vx == vy), disp)
    } else if c == 0x6 {
        (set_v(next, x, kk), disp)
    } else if c == 0x7 {
        (set_v(next, x, ((vx + kk) % 256) as u8), disp)
    } else if c == 0x8 {
        (arith(next, x, y, op_n(m)), disp)
    } else if c == 0x9 {
        (skip_if(next, vx != vy), disp)
    } else if c == 0xA {
        (Machine { i: nnn, ..next }, disp)
    } else if c == 0xB {
        (Machine { pc: (nnn + m.v[0]) as u16, ..next }, disp)
    } else if c == 0xC {
        (set_v(next, x, random & kk), disp)
    } else if c == 0xD {
        draw(next, disp, x, y, op_n(m))
    } else if c == 0xE {
        if kk == 0x9E {
            (skip_if(next, key_down(m, vx)), disp)
        } else {
            (skip_if(next, !key_down(m, vx)), disp)
        }
    } else {
        (misc(next, x, kk), disp)
    }
}

} // verus!
