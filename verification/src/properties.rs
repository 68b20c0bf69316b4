//! Facts about running instructions, stated over the machine model and
//! proved from it.

use vstd::prelude::*;

use crate::display_buffer::{
    WIDTH, HEIGHT, BG_COLOR, PIXEL_COLOR, lemma_collision_is_erasure, draw_sprite, lemma_draw_keeps_two_coloured, lemma_draw_twice_restores, two_coloured,
};
use crate::machine::{
    Machine, FONT, FONT_START, MEMORY_SIZE, PROGRAM_START, advance, arith, can_step, draw, first_pressed,
    high_byte, initial_machine, initial_memory, is_random, loaded_memory, ticked, low_byte, misc, op_class,
    op_kk, op_n, op_nnn, op_x, op_y, sprite_rows, step, well_formed,
};

verus! {

/// Executing an instruction keeps the sizes of memory, registers, stack and
/// keypad, keeps a full-size display full-size, and keeps a display that
/// holds only the lit and the background colour so.
pub proof fn lemma_step_keeps_invariants(m: Machine, disp: Seq<u32>, random: u8)
    requires
        can_step(m, disp.len() as int),
    ensures
        well_formed(step(m, disp, random).0),
        disp.len() == WIDTH * HEIGHT ==> step(m, disp, random).1.len() == WIDTH * HEIGHT,
        two_coloured(disp) ==> two_coloured(step(m, disp, random).1),
{
    reveal(arith);
    reveal(misc);
    reveal(draw);
    if op_class(m) == 0xD && two_coloured(disp) {
        let next = advance(m);
        lemma_draw_keeps_two_coloured(
            disp,
            sprite_rows(next, op_n(m)),
            (next.v[op_x(m)] % (WIDTH as u8)) as int,
            (next.v[op_y(m)] % (HEIGHT as u8)) as int,
        );
    }
}

/// Running the same `Dxyn` twice in a row (with x and y other than F, which
/// the first one overwrites) gives back the display it started from, if that
/// display held only the lit and the background colour.
pub proof fn lemma_draw_twice_erases(m: Machine, disp: Seq<u32>, r1: u8, r2: u8)
    requires
        can_step(m, disp.len() as int),
        two_coloured(disp),
        op_class(m) == 0xD,
        op_x(m) != 15,
        op_y(m) != 15,
        ({
            let m1 = step(m, disp, r1).0;
            &&& m1.pc + 1 < MEMORY_SIZE
            &&& high_byte(m1) == high_byte(m)
            &&& low_byte(m1) == low_byte(m)
        }),
    ensures
        ({
            let (m1, d1) = step(m, disp, r1);
            step(m1, d1, r2).1 == disp
        }),
{
    reveal(draw);
    let next = advance(m);
    let rows = sprite_rows(next, op_n(m));
    let cx = (next.v[op_x(m)] % (WIDTH as u8)) as int;
    let cy = (next.v[op_y(m)] % (HEIGHT as u8)) as int;
    let m1 = step(m, disp, r1).0;
    assert(sprite_rows(advance(m1), op_n(m1)) =~= rows);
    lemma_draw_twice_restores(disp, rows, cx, cy);
}

/// Instructions that neither jump, call, return nor wait for a key leave the
/// program counter at the next instruction or, when they skip, at the one
/// after it.
pub proof fn lemma_straight_line_pc(m: Machine, disp: Seq<u32>, random: u8)
    requires
        can_step(m, disp.len() as int),
        op_class(m) != 0x1 && op_class(m) != 0x2 && op_class(m) != 0xB,
        !(op_class(m) == 0x0 && op_nnn(m) == 0x0EE),
        !(op_class(m) == 0xF && op_kk(m) == 0x0A),
    ensures
        step(m, disp, random).0.pc == m.pc + 2 || step(m, disp, random).0.pc == m.pc + 4,
{
    reveal(arith);
    reveal(misc);
    reveal(draw);
}

/// Calling a subroutine whose first instruction is a return comes back to the
/// instruction after the call, with the stack pointer where it was; the
/// return address stays behind in the stack entry above it.
pub proof fn lemma_call_then_return(m: Machine, disp: Seq<u32>, r1: u8, r2: u8)
    requires
        can_step(m, disp.len() as int),
        op_class(m) == 0x2,
        ({
            let m1 = step(m, disp, r1).0;
            &&& m1.pc + 1 < MEMORY_SIZE
            &&& high_byte(m1) == 0x00
            &&& low_byte(m1) == 0xEE
        }),
    ensures
        ({
            let m1 = step(m, disp, r1).0;
            let m2 = step(m1, step(m, disp, r1).1, r2).0;
            &&& can_step(m1, disp.len() as int)
            &&& m2 == (Machine {
                stack: m.stack.update(m.sp + 1, (m.pc + 2) as u16),
                ..advance(m)
            })
        }),
{
    let m1 = step(m, disp, r1).0;
    assert(op_class(m1) == 0 && op_nnn(m1) == 0x0EE);
}

/// Storing registers V0-Vx at I and then loading V0-Vx from I gives the
/// registers back.
pub proof fn lemma_store_then_load_registers(m: Machine, disp: Seq<u32>, r1: u8, r2: u8)
    requires
        can_step(m, disp.len() as int),
        op_class(m) == 0xF,
        op_kk(m) == 0x55,
        ({
            let m1 = step(m, disp, r1).0;
            &&& m1.pc + 1 < MEMORY_SIZE
            &&& op_class(m1) == 0xF
            &&& op_kk(m1) == 0x65
            &&& op_x(m1) == op_x(m)
        }),
    ensures
        ({
            let m1 = step(m, disp, r1).0;
            &&& can_step(m1, disp.len() as int)
            &&& step(m1, disp, r2).0.v == m.v
            &&& step(m1, disp, r2).0.i == m.i
        }),
{
    reveal(misc);
    let m1 = step(m, disp, r1).0;
    let m2 = step(m1, disp, r2).0;
    assert(m2.v =~= m.v);
}

/// `Fx33` stores the three decimal digits of Vx, hundreds first.
pub proof fn lemma_decimal_digits(m: Machine, disp: Seq<u32>, random: u8)
    requires
        can_step(m, disp.len() as int),
        op_class(m) == 0xF,
        op_kk(m) == 0x33,
    ensures
        ({
            let mem = step(m, disp, random).0.memory;
            let i = m.i as int;
            &&& mem[i] < 10 && mem[i + 1] < 10 && mem[i + 2] < 10
            &&& 100 * mem[i] + 10 * mem[i + 1] + mem[i + 2] == m.v[op_x(m)]
        }),
{
    reveal(misc);
}

/// `8xy4` with x other than F: VF is the carry out of the eight-bit sum,
/// and VF * 256 + Vx is the full sum.
pub proof fn lemma_add_carry(m: Machine, disp: Seq<u32>, random: u8)
    requires
        can_step(m, disp.len() as int),
        op_class(m) == 0x8,
        op_n(m) == 4,
        op_x(m) != 15,
    ensures
        ({
            let after = step(m, disp, random).0;
            &&& after.v[15] <= 1
            &&& after.v[15] * 256 + after.v[op_x(m)] == m.v[op_x(m)] + m.v[op_y(m)]
        }),
{
    reveal(arith);
}

/// `8xy5` with neither x nor y F: Vx becomes Vx - Vy modulo 256 and VF
/// records whether Vx was greater than Vy.
pub proof fn lemma_sub_borrow(m: Machine, disp: Seq<u32>, random: u8)
    requires
        can_step(m, disp.len() as int),
        op_class(m) == 0x8,
        op_n(m) == 5,
        op_x(m) != 15,
        op_y(m) != 15,
    ensures
        ({
            let after = step(m, disp, random).0;
            &&& after.v[15] == (if m.v[op_x(m)] > m.v[op_y(m)] { 1u8 } else { 0u8 })
            &&& after.v[op_x(m)] == (m.v[op_x(m)] - m.v[op_y(m)]) % 256
        }),
{
    reveal(arith);
}

/// Only `Cxkk` depends on the random byte, and what it stores has no bit
/// outside the mask kk.
pub proof fn lemma_randomness(m: Machine, disp: Seq<u32>, r1: u8, r2: u8)
    requires
        can_step(m, disp.len() as int),
    ensures
        !is_random(m) ==> step(m, disp, r1) == step(m, disp, r2),
        is_random(m) ==> step(m, disp, r1).0.v[op_x(m)] & op_kk(m) == step(m, disp, r1).0.v[op_x(
            m,
        )],
{
    if is_random(m) {
        let kk = op_kk(m);
        assert((r1 & kk) & kk == r1 & kk) by (bit_vector);
    }
}

proof fn lemma_first_pressed(keys: Seq<bool>, k: int)
    requires
        0 <= k <= 16,
    ensures
        first_pressed(keys, k) is None <==> forall|j: int| k <= j < 16 ==> !#[trigger] keys[j],
        first_pressed(keys, k) matches Some(b) ==> {
            &&& k <= b < 16
            &&& keys[b as int]
            &&& forall|j: int| k <= j < b ==> !#[trigger] keys[j]
        },
    decreases 16 - k,
{
    if k < 16 {
        lemma_first_pressed(keys, k + 1);
    }
}

/// `Fx0A` waits: while no key is down it changes nothing, so it runs again;
/// otherwise Vx receives the lowest-numbered key that is down.
pub proof fn lemma_wait_for_key(m: Machine, disp: Seq<u32>, random: u8)
    requires
        can_step(m, disp.len() as int),
        op_class(m) == 0xF,
        op_kk(m) == 0x0A,
    ensures
        (forall|k: int| 0 <= k < 16 ==> !#[trigger] m.keys[k]) ==> step(m, disp, random) == (
        m,
        disp,
        ),
        (exists|k: int| 0 <= k < 16 && #[trigger] m.keys[k]) ==> {
            let key = step(m, disp, random).0.v[op_x(m)];
            &&& key < 16
            &&& m.keys[key as int]
            &&& forall|k: int| 0 <= k < key ==> !#[trigger] m.keys[k]
        },
{
    reveal(misc);
    lemma_first_pressed(m.keys, 0);
}

/// While the font is where a fresh machine has it, `Fx29` points I at the
/// five-row glyph of the hexadecimal digit in the low nibble of Vx.
pub proof fn lemma_font_glyph(m: Machine, disp: Seq<u32>, random: u8)
    requires
        can_step(m, disp.len() as int),
        op_class(m) == 0xF,
        op_kk(m) == 0x29,
        m.memory.subrange(FONT_START as int, FONT_START + 80) == initial_memory().subrange(
            FONT_START as int,
            FONT_START + 80,
        ),
    ensures
        ({
            let after = step(m, disp, random).0;
            let digit = m.v[op_x(m)] % 16;
            &&& after.i == FONT_START + 5 * digit
            &&& forall|k: int|
                0 <= k < 5 ==> #[trigger] after.memory[after.i + k] == FONT@[5 * digit + k]
        }),
{
    reveal(misc);
    let after = step(m, disp, random).0;
    let digit = m.v[op_x(m)] % 16;
    assert forall|k: int| 0 <= k < 5 implies #[trigger] after.memory[after.i + k] == FONT@[5
        * digit + k] by {
        let j = 5 * digit + k;
        assert(m.memory.subrange(FONT_START as int, FONT_START + 80)[j] == m.memory[FONT_START + j]);
        assert(initial_memory().subrange(FONT_START as int, FONT_START + 80)[j]
            == initial_memory()[FONT_START + j]);
    }
}

/// The conditional skips, stated over the two instruction bytes `h l`: the
/// program counter moves past the next instruction (by four) exactly when
/// the condition holds and past this one only (by two) otherwise, and
/// nothing else changes. `3xkk` skips when Vx = kk, `4xkk` when Vx != kk,
/// `5xy0` when Vx = Vy, `9xy0` when Vx != Vy, `Ex9E` when key Vx is down and
/// `ExA1` when it is not (only keys 0-F exist).
pub proof fn lemma_conditional_skips(m: Machine, disp: Seq<u32>, random: u8)
    requires
        can_step(m, disp.len() as int),
    ensures
        ({
            let h = m.memory[m.pc as int];
            let l = m.memory[m.pc + 1];
            let vx = m.v[(h % 16) as int];
            let vy = m.v[(l / 16) as int];
            let down = vx < 16 && m.keys[vx as int];
            let after = step(m, disp, random);
            &&& h / 16 == 3 ==> after == (Machine { pc: (m.pc + if vx == l { 4int } else { 2int }) as u16, ..m }, disp)
            &&& h / 16 == 4 ==> after == (Machine { pc: (m.pc + if vx != l { 4int } else { 2int }) as u16, ..m }, disp)
            &&& h / 16 == 5 ==> after == (Machine { pc: (m.pc + if vx == vy { 4int } else { 2int }) as u16, ..m }, disp)
            &&& h / 16 == 9 ==> after == (Machine { pc: (m.pc + if vx != vy { 4int } else { 2int }) as u16, ..m }, disp)
            &&& (h / 16 == 0xE && l == 0x9E) ==> after == (Machine { pc: (m.pc + if down { 4int } else { 2int }) as u16, ..m }, disp)
            &&& (h / 16 == 0xE && l == 0xA1) ==> after == (Machine { pc: (m.pc + if !down { 4int } else { 2int }) as u16, ..m }, disp)
        }),
{
}

/// Jumps, calls, returns, loads and the screen clear, stated over the two
/// instruction bytes `h l` with `nnn = (h mod 16) * 256 + l`: every one of
/// them changes only what is listed.
pub proof fn lemma_control_and_loads(m: Machine, disp: Seq<u32>, random: u8)
    requires
        can_step(m, disp.len() as int),
    ensures
        ({
            let h = m.memory[m.pc as int];
            let l = m.memory[m.pc + 1];
            let x = (h % 16) as int;
            let vx = m.v[x];
            let nnn = (h % 16) as int * 256 + l;
            let next_pc = (m.pc + 2) as u16;
            let after = step(m, disp, random);
            &&& (h == 0 && l == 0xE0) ==> {
                &&& after.0 == (Machine { pc: next_pc, draw: true, ..m })
                &&& after.1.len() == WIDTH * HEIGHT
                &&& forall|i: int| 0 <= i < WIDTH * HEIGHT ==> #[trigger] after.1[i] == BG_COLOR
            }
            &&& (h == 0 && l == 0xEE) ==> after == (Machine {
                pc: m.stack[m.sp as int],
                sp: (m.sp - 1) as u8,
                ..m
            }, disp)
            &&& h / 16 == 1 ==> after == (Machine { pc: nnn as u16, ..m }, disp)
            &&& h / 16 == 2 ==> after == (Machine {
                sp: (m.sp + 1) as u8,
                stack: m.stack.update(m.sp + 1, next_pc),
                pc: nnn as u16,
                ..m
            }, disp)
            &&& h / 16 == 6 ==> after == (Machine { pc: next_pc, v: m.v.update(x, l), ..m }, disp)
            &&& h / 16 == 7 ==> after == (Machine {
                pc: next_pc,
                v: m.v.update(x, ((vx + l) % 256) as u8),
                ..m
            }, disp)
            &&& h / 16 == 0xA ==> after == (Machine { pc: next_pc, i: nnn as u16, ..m }, disp)
            &&& h / 16 == 0xB ==> after == (Machine { pc: (nnn + m.v[0]) as u16, ..m }, disp)
            &&& h / 16 == 0xC ==> after == (Machine {
                pc: next_pc,
                v: m.v.update(x, random & l),
                ..m
            }, disp)
        }),
{
}

/// The register operations `8xyn`, stated over the two instruction bytes
/// `h l` (x = h mod 16, y = l / 16, n = l mod 16): each changes Vx, and VF
/// where it sets a flag, and nothing else but the program counter.
/// LD copies Vy; OR, AND and XOR combine bitwise (OR keeps every bit of both
/// operands); ADD keeps the low eight bits of the sum and VF is the carry;
/// SUB and SUBN keep the difference modulo 256 and VF says whether no borrow
/// occurred; SHR halves with VF the bit shifted out; SHL doubles modulo 256
/// with VF the top bit. Where VF is written x is taken other than F, and for
/// SUB and SUBN y too, since the flag is written before the result.
pub proof fn lemma_register_operations(m: Machine, disp: Seq<u32>, random: u8)
    requires
        can_step(m, disp.len() as int),
        m.memory[m.pc as int] / 16 == 8,
    ensures
        ({
            let h = m.memory[m.pc as int];
            let l = m.memory[m.pc + 1];
            let x = (h % 16) as int;
            let y = (l / 16) as int;
            let n = l % 16;
            let vx = m.v[x];
            let vy = m.v[y];
            let next_pc = (m.pc + 2) as u16;
            let after = step(m, disp, random);
            &&& after.1 == disp
            &&& n == 0 ==> after.0 == (Machine { pc: next_pc, v: m.v.update(x, vy), ..m })
            &&& n == 1 ==> {
                &&& after.0 == (Machine { pc: next_pc, v: m.v.update(x, vx | vy), ..m })
                &&& after.0.v[x] & vx == vx
                &&& after.0.v[x] & vy == vy
            }
            &&& n == 2 ==> after.0 == (Machine { pc: next_pc, v: m.v.update(x, vx & vy), ..m })
            &&& n == 3 ==> after.0 == (Machine { pc: next_pc, v: m.v.update(x, vx ^ vy), ..m })
            &&& (n == 4 && x != 15) ==> after.0 == (Machine {
                pc: next_pc,
                v: m.v.update(15, if vx + vy > 255 { 1u8 } else { 0u8 }).update(
                    x,
                    ((vx + vy) % 256) as u8,
                ),
                ..m
            })
            &&& (n == 5 && x != 15 && y != 15) ==> after.0 == (Machine {
                pc: next_pc,
                v: m.v.update(15, if vx > vy { 1u8 } else { 0u8 }).update(
                    x,
                    ((vx - vy) % 256) as u8,
                ),
                ..m
            })
            &&& (n == 6 && x != 15) ==> after.0 == (Machine {
                pc: next_pc,
                v: m.v.update(15, vx % 2).update(x, vx / 2),
                ..m
            })
            &&& (n == 7 && x != 15 && y != 15) ==> after.0 == (Machine {
                pc: next_pc,
                v: m.v.update(15, if vy > vx { 1u8 } else { 0u8 }).update(
                    x,
                    ((vy - vx) % 256) as u8,
                ),
                ..m
            })
            &&& (n == 0xE && x != 15) ==> after.0 == (Machine {
                pc: next_pc,
                v: m.v.update(15, vx / 128).update(x, ((2 * vx) % 256) as u8),
                ..m
            })
        }),
{
    reveal(arith);
    let h = m.memory[m.pc as int];
    let l = m.memory[m.pc + 1];
    let vx = m.v[(h % 16) as int];
    let vy = m.v[(l / 16) as int];
    assert((vx | vy) & vx == vx && (vx | vy) & vy == vy) by (bit_vector);
    assert(vx & 1u8 == vx % 2 && vx >> 7u8 == vx / 128) by (bit_vector);
}

/// The `Fxkk` operations other than the key wait, the BCD store and the font
/// address (see their own laws), stated over the two instruction bytes
/// `h l` (x = h mod 16, kk = l): each changes only what is listed.
/// Fx07 copies the delay timer into Vx; Fx15 and Fx18 set the delay and
/// sound timers to Vx; Fx1E adds Vx to I as numbers; Fx55 stores V0-Vx at
/// I, I+1, ..., I+x and leaves the rest of memory; Fx65 loads V0-Vx from
/// there and leaves the other registers.
pub proof fn lemma_timer_and_memory_operations(m: Machine, disp: Seq<u32>, random: u8)
    requires
        can_step(m, disp.len() as int),
        m.memory[m.pc as int] / 16 == 0xF,
    ensures
        ({
            let h = m.memory[m.pc as int];
            let l = m.memory[m.pc + 1];
            let x = (h % 16) as int;
            let vx = m.v[x];
            let next_pc = (m.pc + 2) as u16;
            let after = step(m, disp, random);
            &&& after.1 == disp
            &&& l == 0x07 ==> after.0 == (Machine { pc: next_pc, v: m.v.update(x, m.delay_timer), ..m })
            &&& l == 0x15 ==> after.0 == (Machine { pc: next_pc, delay_timer: vx, ..m })
            &&& l == 0x18 ==> after.0 == (Machine { pc: next_pc, sound_timer: vx, ..m })
            &&& l == 0x1E ==> {
                &&& after.0 == (Machine { pc: next_pc, i: after.0.i, ..m })
                &&& after.0.i == m.i + vx
            }
            &&& l == 0x55 ==> {
                &&& after.0 == (Machine { pc: next_pc, memory: after.0.memory, ..m })
                &&& after.0.memory.len() == m.memory.len()
                &&& forall|k: int| 0 <= k <= x ==> #[trigger] after.0.memory[m.i + k] == m.v[k]
                &&& forall|j: int|
                    0 <= j < m.memory.len() && !(m.i <= j <= m.i + x) ==> #[trigger] after.0.memory[j]
                        == m.memory[j]
            }
            &&& l == 0x65 ==> {
                &&& after.0 == (Machine { pc: next_pc, v: after.0.v, ..m })
                &&& after.0.v.len() == 16
                &&& forall|k: int| 0 <= k <= x ==> #[trigger] after.0.v[k] == m.memory[m.i + k]
                &&& forall|k: int| x < k < 16 ==> #[trigger] after.0.v[k] == m.v[k]
            }
        }),
{
    reveal(misc);
}

/// `Dxyn` sets VF to 1 exactly when the draw turns a lit cell of the display
/// dark, and to 0 otherwise (so always 0 on a display with no lit cell); it
/// flags the display as changed and changes nothing else of the machine but
/// the program counter.
pub proof fn lemma_draw_flag(m: Machine, disp: Seq<u32>, random: u8)
    requires
        can_step(m, disp.len() as int),
        m.memory[m.pc as int] / 16 == 0xD,
    ensures
        ({
            let h = m.memory[m.pc as int];
            let l = m.memory[m.pc + 1];
            let (after, shown) = step(m, disp, random);
            let erased = exists|i: int|
                0 <= i < disp.len() && #[trigger] disp[i] == PIXEL_COLOR && shown[i] != PIXEL_COLOR;
            &&& shown.len() == disp.len()
            &&& after.v[15] == if erased { 1u8 } else { 0u8 }
            &&& after == (Machine {
                pc: (m.pc + 2) as u16,
                v: m.v.update(15, after.v[15]),
                draw: true,
                ..m
            })
            &&& (forall|i: int| 0 <= i < disp.len() ==> #[trigger] disp[i] != PIXEL_COLOR) ==> after.v[15] == 0
            &&& shown == draw_sprite(
                disp,
                Seq::new((l % 16) as nat, |k: int| m.memory[m.i + k]),
                (m.v[(h % 16) as int] % 64) as int,
                (m.v[(l / 16) as int] % 32) as int,
            )
        }),
{
    reveal(draw);
    let next = advance(m);
    let rows = sprite_rows(next, op_n(m));
    let cx = (next.v[op_x(m)] % (WIDTH as u8)) as int;
    let cy = (next.v[op_y(m)] % (HEIGHT as u8)) as int;
    lemma_collision_is_erasure(disp, rows, cx, cy);
}

/// The hexadecimal font glyphs, five rows of the digits 0 to F in turn.
pub open spec fn font_glyphs() -> Seq<u8> {
    seq![
            0xF0u8, 0x90u8, 0x90u8, 0x90u8, 0xF0u8,
            0x20u8, 0x60u8, 0x20u8, 0x20u8, 0x70u8,
            0xF0u8, 0x10u8, 0xF0u8, 0x80u8, 0xF0u8,
            0xF0u8, 0x10u8, 0xF0u8, 0x10u8, 0xF0u8,
            0x90u8, 0x90u8, 0xF0u8, 0x10u8, 0x10u8,
            0xF0u8, 0x80u8, 0xF0u8, 0x10u8, 0xF0u8,
            0xF0u8, 0x80u8, 0xF0u8, 0x90u8, 0xF0u8,
            0xF0u8, 0x10u8, 0x20u8, 0x40u8, 0x40u8,
            0xF0u8, 0x90u8, 0xF0u8, 0x90u8, 0xF0u8,
            0xF0u8, 0x90u8, 0xF0u8, 0x10u8, 0xF0u8,
            0xF0u8, 0x90u8, 0xF0u8, 0x90u8, 0x90u8,
            0xE0u8, 0x90u8, 0xE0u8, 0x90u8, 0xE0u8,
            0xF0u8, 0x80u8, 0x80u8, 0x80u8, 0xF0u8,
            0xE0u8, 0x90u8, 0x90u8, 0x90u8, 0xE0u8,
            0xF0u8, 0x80u8, 0xF0u8, 0x80u8, 0xF0u8,
            0xF0u8, 0x80u8, 0xF0u8, 0x80u8, 0x80u8,
        ]
}

/// A fresh machine starts at 0x200 with the stack pointer at 15, everything
/// else zero or released, and the glyphs of the digits 0-F at 0x50.
pub proof fn lemma_initial_machine()
    ensures
        ({
            let m = initial_machine();
            &&& well_formed(m)
            &&& m.pc == 0x200 && m.sp == 15 && m.i == 0
            &&& m.delay_timer == 0 && m.sound_timer == 0 && !m.draw
            &&& forall|k: int| 0 <= k < 16 ==> #[trigger] m.v[k] == 0 && !m.keys[k]
            &&& forall|k: int| 0 <= k < 20 ==> #[trigger] m.stack[k] == 0
            &&& forall|k: int| 0 <= k < 80 ==> #[trigger] m.memory[0x50 + k] == font_glyphs()[k]
            &&& forall|j: int|
                0 <= j < 4096 && !(0x50 <= j < 0xA0) ==> #[trigger] m.memory[j] == 0
        }),
{
    assert(FONT@ =~= font_glyphs());
}

/// A timer tick lowers a running timer by exactly one and leaves a stopped
/// timer at zero.
pub proof fn lemma_tick(timer: u8)
    ensures
        timer > 0 ==> ticked(timer) + 1 == timer,
        timer == 0 ==> ticked(timer) == 0,
{
}

/// After a fresh machine loads a program, the first instruction it fetches
/// is the program's first two bytes, and the font is still in place.
pub proof fn lemma_first_fetch(program: Seq<u8>)
    requires
        2 <= program.len(),
        PROGRAM_START + program.len() <= MEMORY_SIZE,
    ensures
        ({
            let m = Machine {
                memory: loaded_memory(initial_memory(), program),
                ..initial_machine()
            };
            &&& high_byte(m) == program[0]
            &&& low_byte(m) == program[1]
            &&& forall|k: int| 0 <= k < program.len() ==> #[trigger] m.memory[0x200 + k] == program[k]
            &&& forall|j: int| 0 <= j < 0x200 ==> #[trigger] m.memory[j] == initial_memory()[j]
            &&& m.memory.subrange(0x50, 0xA0) == initial_memory().subrange(0x50, 0xA0)
        }),
{
    let m = Machine { memory: loaded_memory(initial_memory(), program), ..initial_machine() };
    assert(m.memory.subrange(0x50, 0xA0) =~= initial_memory().subrange(0x50, 0xA0));
}

} // verus!
