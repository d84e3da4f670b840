//! Loading a program and the glyph table into memory. Reading a ROM file
//! is the embedding's concern; the core takes the bytes, bounds-checks
//! them against the address space, and places them at the conventional
//! program offset.

use crate::state::{State, StateModel, RAM_SIZE};
use crate::Chip8Error;
use vstd::arithmetic::div_mod::lemma_fundamental_div_mod_converse;
use vstd::prelude::*;

verus! {

/// Programs are loaded at this conventional offset.
pub const ROM_OFFSET: usize = 0x200;

/// The conventional base address of the font table.
pub const FONT_ADDRESS: u16 = 0x050;

/// The number of glyphs in the font table.
pub const FONT_GLYPHS: usize = 16;

/// The number of bytes per glyph.
pub const FONT_GLYPH_BYTES: usize = 5;

/// The built-in 16-glyph hexadecimal font, 5 bytes per glyph.
pub const FONT: [[u8; 5]; 16] = [
    [0xf0, 0x90, 0x90, 0x90, 0xf0],  // 0
    [0x20, 0x60, 0x20, 0x20, 0x70],  // 1
    [0xf0, 0x10, 0xf0, 0x80, 0xf0],  // 2
    [0xf0, 0x10, 0xf0, 0x10, 0xf0],  // 3
    [0x90, 0x90, 0xf0, 0x10, 0x10],  // 4
    [0xf0, 0x80, 0xf0, 0x10, 0xf0],  // 5
    [0xf0, 0x80, 0xf0, 0x90, 0xf0],  // 6
    [0xf0, 0x10, 0x20, 0x40, 0x40],  // 7
    [0xf0, 0x90, 0xf0, 0x90, 0xf0],  // 8
    [0xf0, 0x90, 0xf0, 0x10, 0xf0],  // 9
    [0xf0, 0x90, 0xf0, 0x90, 0x90],  // A
    [0xe0, 0x90, 0xe0, 0x90, 0xe0],  // B
    [0xf0, 0x80, 0x80, 0x80, 0xf0],  // C
    [0xe0, 0x90, 0x90, 0x90, 0xe0],  // D
    [0xf0, 0x80, 0xf0, 0x80, 0xf0],  // E
    [0xf0, 0x80, 0xf0, 0x80, 0x80],  // F
];

/// RAM after the glyph table is written at `base`: byte `base + i` holds
/// byte `i % 5` of glyph `i / 5`, and every other byte is untouched.
pub open spec fn font_loaded(ram: Seq<u8>, font: [[u8; 5]; 16], base: int) -> Seq<u8> {
    Seq::new(
        ram.len(),
        |a: int|
            if base <= a < base + 80 {
                font@[(a - base) / 5]@[(a - base) % 5]
            } else {
                ram[a]
            },
    )
}

/// RAM after `rom` is copied in starting at the program offset.
pub open spec fn rom_loaded(ram: Seq<u8>, rom: Seq<u8>) -> Seq<u8> {
    Seq::new(
        ram.len(),
        |a: int|
            if ROM_OFFSET <= a < ROM_OFFSET + rom.len() {
                rom[a - ROM_OFFSET]
            } else {
                ram[a]
            },
    )
}

/// Copies a raw program image into memory at the program offset and points
/// the program counter there. An image longer than the space above the
/// offset does not fit in RAM: that is a fatal load error, reported as an
/// invalid access to the first address past the end of RAM.
pub fn load_rom(state: &mut State, rom: &Vec<u8>) -> (r: Result<(), Chip8Error>)
    requires
        old(state).wf(),
    ensures
        final(state).wf(),
        rom@.len() <= RAM_SIZE - ROM_OFFSET ==> {
            &&& r == Ok::<(), Chip8Error>(())
            &&& final(state)@ == (StateModel {
                ram: rom_loaded(old(state)@.ram, rom@),
                pc: ROM_OFFSET as u16,
                ..old(state)@
            })
        },
        rom@.len() > RAM_SIZE - ROM_OFFSET ==> {
            &&& r == Err::<(), Chip8Error>(Chip8Error::InvalidMemoryAddress(RAM_SIZE))
            &&& final(state)@ == old(state)@
        },
    {
    if rom.len() > RAM_SIZE - ROM_OFFSET {
        return Err(Chip8Error::InvalidMemoryAddress(RAM_SIZE));
    }
    let mut i: usize = 0;
    while i < rom.len()
        invariant
            state.wf(),
            rom@.len() <= RAM_SIZE - ROM_OFFSET,
            i <= rom@.len(),
            state.stack == old(state).stack,
            state.program_counter == old(state).program_counter,
            state.index == old(state).index,
            state.delay_timer == old(state).delay_timer,
            state.sound_timer == old(state).sound_timer,
            state.registers == old(state).registers,
            state.screen == old(state).screen,
            state.keypad == old(state).keypad,
            state.ram@.len() == old(state).ram@.len(),
            forall|a: int|
                ROM_OFFSET <= a < ROM_OFFSET + i ==> state.ram@[a] == rom@[a - ROM_OFFSET],
            forall|a: int|
                0 <= a < RAM_SIZE && !(ROM_OFFSET <= a < ROM_OFFSET + i) ==> state.ram@[a] == old(
                    state,
                ).ram@[a],
        decreases rom@.len() - i,
    {
        let b = rom[i];
        self_write(state, ROM_OFFSET + i, b);
        i = i + 1;
    }
    state.program_counter = ROM_OFFSET as u16;
    proof {
        assert(state.ram@ =~= rom_loaded(old(state)@.ram, rom@));
    }
    Ok(())
}

/// Writes the 16-glyph font table into memory starting at `font_addr`.
/// The table must fit inside RAM; a base past `RAM_SIZE - 80` is not a
/// configuration this machine accepts.
pub fn load_font(state: &mut State, font: [[u8; 5]; 16], font_addr: u16)
    requires
        old(state).wf(),
        font_addr + 80 <= RAM_SIZE,
    ensures
        final(state).wf(),
        final(state)@ == (StateModel {
            ram: font_loaded(old(state)@.ram, font, font_addr as int),
            ..old(state)@
        }),
{
    let base = font_addr as usize;
    let mut r: usize = 0;
    while r < FONT_GLYPHS
        invariant
            state.wf(),
            base == font_addr as int,
            base + 80 <= RAM_SIZE,
            r <= FONT_GLYPHS,
            state.stack == old(state).stack,
            state.program_counter == old(state).program_counter,
            state.index == old(state).index,
            state.delay_timer == old(state).delay_timer,
            state.sound_timer == old(state).sound_timer,
            state.registers == old(state).registers,
            state.screen == old(state).screen,
            state.keypad == old(state).keypad,
            state.ram@.len() == old(state).ram@.len(),
            forall|a: int|
                base <= a < base + r * 5 ==> state.ram@[a] == font@[(a - base) / 5]@[(a - base)
                    % 5],
            forall|a: int|
                0 <= a < RAM_SIZE && !(base <= a < base + r * 5) ==> state.ram@[a] == old(
                    state,
                ).ram@[a],
        decreases FONT_GLYPHS - r,
    {
        let mut c: usize = 0;
        while c < FONT_GLYPH_BYTES
            invariant
                state.wf(),
                base == font_addr as int,
                base + 80 <= RAM_SIZE,
                r < FONT_GLYPHS,
                c <= FONT_GLYPH_BYTES,
                state.stack == old(state).stack,
                state.program_counter == old(state).program_counter,
                state.index == old(state).index,
                state.delay_timer == old(state).delay_timer,
                state.sound_timer == old(state).sound_timer,
                state.registers == old(state).registers,
                state.screen == old(state).screen,
                state.keypad == old(state).keypad,
                state.ram@.len() == old(state).ram@.len(),
                forall|a: int|
                    base <= a < base + r * 5 + c ==> state.ram@[a] == font@[(a - base) / 5]@[(a
                        - base) % 5],
                forall|a: int|
                    0 <= a < RAM_SIZE && !(base <= a < base + r * 5 + c) ==> state.ram@[a] == old(
                        state,
                    ).ram@[a],
            decreases FONT_GLYPH_BYTES - c,
        {
            let row = font[r];
            let b = row[c];
            self_write(state, base + r * 5 + c, b);
            proof {
                lemma_fundamental_div_mod_converse(r * 5 + c, 5, r as int, c as int);
            }
            c = c + 1;
        }
        r = r + 1;
    }
    proof {
        assert(state.ram@ =~= font_loaded(old(state)@.ram, font, font_addr as int));
    }
}

/// A single bounds-known RAM write.
fn self_write(state: &mut State, addr: usize, value: u8)
    requires
        old(state).wf(),
        addr < RAM_SIZE,
    ensures
        final(state).wf(),
        final(state).ram@ == old(state).ram@.update(addr as int, value),
        final(state).stack == old(state).stack,
        final(state).program_counter == old(state).program_counter,
        final(state).index == old(state).index,
        final(state).delay_timer == old(state).delay_timer,
        final(state).sound_timer == old(state).sound_timer,
        final(state).registers == old(state).registers,
        final(state).screen == old(state).screen,
        final(state).keypad == old(state).keypad,
{
    state.ram[addr] = value;
}

} // verus!
