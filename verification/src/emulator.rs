//! The interpreter together with its display, driven one call at a time by a
//! front end (such as a web page) that reads keys and paints the buffer.

use vstd::prelude::*;

use crate::cpu::{Chip8VM, lemma_public_fields, lemma_public_fields_update, lemma_well_formed};
use crate::display_buffer::{DisplayBuffer, BG_COLOR, HEIGHT, WIDTH, blank_display};
use crate::keypad::{key2btn, key_button};
use crate::machine::{
    Machine, MEMORY_SIZE, PROGRAM_START, can_step, initial_machine, is_random, loaded_memory,
    step, ticked, well_formed,
};

verus! {

/// The sum of two numbers.
pub fn add(left: u64, right: u64) -> (sum: u64)
    requires
        left + right <= u64::MAX,
    ensures
        sum == left + right,
{
    left + right
}

/// An interpreter and the display it draws on.
pub struct Emulator {
    cpu: Chip8VM,
    buffer: DisplayBuffer,
}

impl Emulator {
    /// The state of the interpreter.
    pub closed spec fn machine(&self) -> Machine {
        self.cpu@
    }

    /// The cells of the display.
    pub closed spec fn display(&self) -> Seq<u32> {
        self.buffer.0@
    }

    /// The interpreter's memory, registers, stack and keypad have the sizes
    /// of the hardware.
    pub proof fn lemma_well_formed(&self)
        ensures
            well_formed(self.machine()),
    {
        lemma_well_formed(&self.cpu);
    }

    /// A fresh interpreter and a blank display.
    pub fn new() -> (emulator: Self)
        ensures
            emulator.machine() == initial_machine(),
            emulator.display() == blank_display(),
    {
        let buffer = DisplayBuffer(vec![BG_COLOR; WIDTH * HEIGHT]);
        assert(buffer.0@ =~= blank_display());
        Emulator { cpu: Chip8VM::new(), buffer }
    }

    /// Copies a program into memory at `PROGRAM_START`.
    pub fn load(&mut self, data: Vec<u8>)
        requires
            PROGRAM_START + data@.len() <= MEMORY_SIZE,
        ensures
            final(self).machine() == (Machine {
                memory: loaded_memory(old(self).machine().memory, data@),
                ..old(self).machine()
            }),
            final(self).display() == old(self).display(),
    {
        self.cpu.load(data);
    }

    /// Whether `exec` can run the instruction at the program counter (see
    /// `can_step`).
    pub fn can_exec(&self) -> (ok: bool)
        ensures
            ok == can_step(self.machine(), self.display().len() as int),
    {
        self.cpu.can_exec(&self.buffer)
    }

    /// Executes one instruction (see `Chip8VM::exec`).
    pub fn exec(&mut self)
        requires
            can_step(old(self).machine(), old(self).display().len() as int),
        ensures
            exists|random: u8|
                final(self).machine() == step(old(self).machine(), old(self).display(), random).0
                    && final(self).display() == step(
                    old(self).machine(),
                    old(self).display(),
                    random,
                ).1,
            !is_random(old(self).machine()) ==> final(self).machine() == step(
                old(self).machine(),
                old(self).display(),
                0,
            ).0 && final(self).display() == step(old(self).machine(), old(self).display(), 0).1,
    {
        self.cpu.exec(&mut self.buffer);
    }

    /// Whether the display changed since the flag was last cleared.
    pub fn can_draw(&self) -> (changed: bool)
        ensures
            changed == self.machine().draw,
    {
        proof {
            lemma_public_fields(&self.cpu);
        }
        self.cpu.draw
    }

    /// Clears the flag that the display changed.
    pub fn un_draw(&mut self)
        ensures
            final(self).machine() == (Machine { draw: false, ..old(self).machine() }),
            final(self).display() == old(self).display(),
    {
        let ghost before = self.cpu;
        self.cpu.draw = false;
        proof {
            lemma_public_fields(&before);
            lemma_public_fields_update(&before, &self.cpu);
        }
    }

    /// The delay timer.
    pub fn get_delay_timer(&self) -> (timer: u8)
        ensures
            timer == self.machine().delay_timer,
    {
        proof {
            lemma_public_fields(&self.cpu);
        }
        self.cpu.delay_timer
    }

    /// One tick of the delay timer: it goes down by one unless it is zero.
    pub fn tick_delay_timer(&mut self)
        ensures
            final(self).machine() == (Machine {
                delay_timer: ticked(old(self).machine().delay_timer),
                ..old(self).machine()
            }),
            final(self).display() == old(self).display(),
    {
        let ghost before = self.cpu;
        proof {
            lemma_public_fields(&before);
        }
        if self.cpu.delay_timer > 0 {
            self.cpu.delay_timer -= 1;
        }
        proof {
            lemma_public_fields_update(&before, &self.cpu);
        }
    }

    /// Records that the keyboard key named `key` went down (`state` true) or
    /// up; a key that is not on the keypad changes nothing.
    pub fn keypress(&mut self, key: &str, state: bool)
        ensures
            final(self).machine() == (match key_button(key@) {
                Some(b) => Machine {
                    keys: old(self).machine().keys.update(b as int, state),
                    ..old(self).machine()
                },
                None => old(self).machine(),
            }),
            final(self).display() == old(self).display(),
    {
        let ghost before = self.cpu;
        proof {
            lemma_public_fields(&before);
            crate::keypad::lemma_layout_round_trip(0, key@);
        }
        if let Some(which) = key2btn(key) {
            self.cpu.keys[which] = state;
        }
        proof {
            lemma_public_fields_update(&before, &self.cpu);
        }
    }

    /// A copy of the display cells.
    pub fn get_buffer(&self) -> (cells: Vec<u32>)
        ensures
            cells@ == self.display(),
    {
        let n_buff = self.buffer.0.clone();
        assert(n_buff@ =~= self.buffer.0@);
        n_buff
    }
}

} // verus!
