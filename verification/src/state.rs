//! The machine state: RAM, the 16 general-purpose registers, the index
//! register, the program counter, the two timers, the stack, the
//! framebuffer and the keypad. One owned aggregate, passed by exclusive
//! mutable reference into each execution step; every RAM access is
//! bounds-checked and an out-of-range access is a fatal error.

use crate::keypad::Keypad;
use crate::screen::Screen;
use crate::screen_config::ScreenConfig;
use crate::stack::Stack;
use crate::Chip8Error;
use vstd::prelude::*;

verus! {

/// The number of general-purpose registers, V0 through VF.
pub const REGISTERS_SIZE: usize = 16;

/// The size of the address space, in bytes.
pub const RAM_SIZE: usize = 4096;

/// The mathematical model of the machine state: every component as a plain
/// sequence or number. The stack holds only the live entries, oldest
/// first; the screen is the flat row-major pixel grid.
#[verifier::ext_equal]
pub ghost struct StateModel {
    pub ram: Seq<u8>,
    pub stack: Seq<u16>,
    pub pc: u16,
    pub index: u16,
    pub delay: u8,
    pub sound: u8,
    pub regs: Seq<u8>,
    pub screen: Seq<bool>,
    pub screen_w: nat,
    pub screen_h: nat,
    pub keys: Seq<bool>,
}

pub struct State {
    pub ram: Vec<u8>,
    pub stack: Stack,
    pub program_counter: u16,
    pub index: u16,
    pub delay_timer: u8,
    pub sound_timer: u8,
    pub registers: Vec<u8>,
    pub screen: Screen,
    pub keypad: Keypad,
}

impl View for State {
    type V = StateModel;

    open spec fn view(&self) -> StateModel {
        StateModel {
            ram: self.ram@,
            stack: self.stack@,
            pc: self.program_counter,
            index: self.index,
            delay: self.delay_timer,
            sound: self.sound_timer,
            regs: self.registers@,
            screen: self.screen@,
            screen_w: self.screen.dimensions.width as nat,
            screen_h: self.screen.dimensions.height as nat,
            keys: self.keypad@,
        }
    }
}

impl State {
    pub open spec fn wf(&self) -> bool {
        &&& self.ram@.len() == RAM_SIZE
        &&& self.registers@.len() == REGISTERS_SIZE
        &&& self.stack.wf()
        &&& self.screen.wf()
        &&& self.keypad.wf()
    }

    /// Saturating 60Hz tick: each timer counts down to zero and stays
    /// there; it never wraps.
    pub fn decrease_timers(&mut self)
        ensures
            final(self)@ == (StateModel {
                delay: if old(self).delay_timer > 0 {
                    (old(self).delay_timer - 1) as u8
                } else {
                    0u8
                },
                sound: if old(self).sound_timer > 0 {
                    (old(self).sound_timer - 1) as u8
                } else {
                    0u8
                },
                ..old(self)@
            }),
            final(self).wf() == old(self).wf(),
    {
        self.delay_timer = self.delay_timer - if self.delay_timer > 0 {
            1
        } else {
            0
        };
        self.sound_timer = self.sound_timer - if self.sound_timer > 0 {
            1
        } else {
            0
        };
    }

    /// A powered-on machine: zeroed memory, registers and timers, an empty
    /// stack, a blank screen and no key held.
    pub fn new(screen_config: &ScreenConfig) -> (s: Self)
        requires
            screen_config.wf(),
        ensures
            s.wf(),
            s@.ram == Seq::new(RAM_SIZE as nat, |i: int| 0u8),
            s@.regs == Seq::new(REGISTERS_SIZE as nat, |i: int| 0u8),
            s@.stack == Seq::<u16>::empty(),
            s@.pc == 0,
            s@.index == 0,
            s@.delay == 0,
            s@.sound == 0,
            forall|i: int| 0 <= i < s@.screen.len() ==> !s@.screen[i],
            forall|i: int| 0 <= i < s@.keys.len() ==> !s@.keys[i],
            s@.screen_w == screen_config.screen_dimensions.width,
            s@.screen_h == screen_config.screen_dimensions.height,
    {
        let ram: Vec<u8> = vec![0u8; RAM_SIZE];
        let registers: Vec<u8> = vec![0u8; REGISTERS_SIZE];
        proof {
            assert(ram@ =~= Seq::new(RAM_SIZE as nat, |i: int| 0u8));
            assert(registers@ =~= Seq::new(REGISTERS_SIZE as nat, |i: int| 0u8));
        }
        Self {
            ram,
            stack: Stack::new(),
            program_counter: 0,
            index: 0,
            delay_timer: 0,
            sound_timer: 0,
            registers,
            screen: Screen::new(screen_config),
            keypad: Keypad::new(),
        }
    }

    pub fn register(&self, index: usize) -> (r: u8)
        requires
            self.wf(),
            index < REGISTERS_SIZE,
        ensures
            r == self@.regs[index as int],
    {
        self.registers[index]
    }

    pub fn set_register(&mut self, index: usize, value: u8)
        requires
            old(self).wf(),
            index < REGISTERS_SIZE,
        ensures
            final(self).wf(),
            final(self)@ == (StateModel {
                regs: old(self)@.regs.update(index as int, value),
                ..old(self)@
            }),
    {
        self.registers[index] = value;
    }

    /// VF, the dual-purpose carry/borrow/collision flag register.
    pub fn vf(&self) -> (r: u8)
        requires
            self.wf(),
        ensures
            r == self@.regs[REGISTERS_SIZE - 1],
    {
        self.registers[REGISTERS_SIZE - 1]
    }

    pub fn set_vf(&mut self, value: u8)
        requires
            old(self).wf(),
        ensures
            final(self).wf(),
            final(self)@ == (StateModel {
                regs: old(self)@.regs.update(REGISTERS_SIZE - 1, value),
                ..old(self)@
            }),
    {
        self.registers[REGISTERS_SIZE - 1] = value;
    }

    /// A bounds-checked RAM read; an out-of-range address is a fatal
    /// error naming the address.
    pub fn read_ram(&self, addr: usize) -> (r: Result<u8, Chip8Error>)
        requires
            self.wf(),
        ensures
            addr < RAM_SIZE ==> r == Ok::<u8, Chip8Error>(self@.ram[addr as int]),
            addr >= RAM_SIZE ==> r == Err::<u8, Chip8Error>(Chip8Error::InvalidMemoryAddress(addr)),
    {
        if addr >= RAM_SIZE {
            return Err(Chip8Error::InvalidMemoryAddress(addr));
        }
        Ok(self.ram[addr])
    }

    /// A bounds-checked two-byte RAM read at `addr` and `addr + 1`.
    pub fn read_ram_16(&self, addr: usize) -> (r: Result<(u8, u8), Chip8Error>)
        requires
            self.wf(),
        ensures
            addr + 1 < RAM_SIZE ==> r == Ok::<(u8, u8), Chip8Error>(
                (self@.ram[addr as int], self@.ram[addr + 1]),
            ),
            addr + 1 >= RAM_SIZE ==> r == Err::<(u8, u8), Chip8Error>(
                Chip8Error::InvalidMemoryAddress(if addr < RAM_SIZE {
                    (addr + 1) as usize
                } else {
                    addr
                }),
            ),
    {
        let b1 = self.read_ram(addr)?;
        let b2 = self.read_ram(addr + 1)?;
        Ok((b1, b2))
    }

    pub fn register_numbers(&self) -> (n: usize)
        requires
            self.wf(),
        ensures
            n == REGISTERS_SIZE,
    {
        self.registers.len()
    }
}

} // verus!
