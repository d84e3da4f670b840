//! The execution engine: one fetch-decode-execute cycle over the machine
//! state, parameterized by the historical interpreter variant. Execution is
//! specified by a total transition function over the state model; every
//! instruction has defined behavior except `Unsupported`, which is a fatal
//! error naming the offending opcode, and faults (bad address, stack
//! overflow or underflow) are surfaced as typed errors.

use crate::instruction::{decode, inst_wf, spec_decode, Instruction, Operator};
use crate::screen::sprite_covers;
use crate::state::{State, StateModel, RAM_SIZE, REGISTERS_SIZE};
use crate::Chip8Error;
use rand::Rng;
use vstd::prelude::*;

verus! {

use vstd::wrapping::u16_specs;
use vstd::wrapping::u8_specs;

/// The two historical interpreter behaviors. The choice alters three
/// instruction semantics: the shift source register, the jump-with-offset
/// register, and whether the register block moves advance the index.
#[derive(Debug, Clone, Copy, PartialEq, Eq, Structural)]
pub enum InterpreterVariant {
    CosmacVip,
    Chip48,
}

/// The interpreter owns no machine state: only the immutable variant
/// selector and the font base address, fixed at construction.
pub struct Interpreter {
    pub variant: InterpreterVariant,
    pub font_address: u16,
}

/// The result and flag of the borrow-style subtraction: `x - y` with the
/// flag meaning "no borrow occurred". When `x < y` the result is the
/// absolute difference `y - x` (not a two's-complement wraparound) and the
/// flag is 0.
pub open spec fn spec_subtract(x: u8, y: u8) -> (u8, u8) {
    if x >= y {
        ((x - y) as u8, 1u8)
    } else {
        ((y - x) as u8, 0u8)
    }
}

/// The result and shifted-out bit of a shift by one. The source register
/// depends on the variant: CosmacVip shifts `y`, Chip48 shifts `x` in
/// place.
pub open spec fn spec_shift(variant: InterpreterVariant, x: u8, y: u8, left: bool) -> (u8, u8) {
    let value = match variant {
        InterpreterVariant::CosmacVip => y,
        InterpreterVariant::Chip48 => x,
    };
    if left {
        (((value * 2) % 256) as u8, if value >= 0x80 {
            1u8
        } else {
            0u8
        })
    } else {
        ((value / 2) as u8, if value % 2 == 1 {
            1u8
        } else {
            0u8
        })
    }
}

/// The state after writing an ALU result to `Vx` and then the flag to VF;
/// the flag write comes second, so a result written to VF itself is
/// overwritten by the flag.
pub open spec fn flag_result(m: StateModel, rx: int, result: u8, flag: u8) -> StateModel {
    StateModel { regs: m.regs.update(rx, result).update(REGISTERS_SIZE - 1, flag), ..m }
}

/// The 12-bit payload reconstructed from an unknown ALU operator, for the
/// diagnostic carried by the error.
pub open spec fn arith_payload(rx: int, ry: int, code: u8) -> u16 {
    (rx * 0x100 + ry * 0x10 + (code & 0x0F)) as u16
}

/// The ALU group. `Assign`, `Or`, `And` and `Xor` write `Vx` with no flag
/// effect; the arithmetic and shift operators write `Vx` and then VF; an
/// unknown operator is a fatal error.
pub open spec fn spec_arithmetic(
    variant: InterpreterVariant,
    op: Operator,
    rx: int,
    ry: int,
    m: StateModel,
) -> Result<StateModel, Chip8Error> {
    let x = m.regs[rx];
    let y = m.regs[ry];
    match op {
        Operator::Assign => Ok(StateModel { regs: m.regs.update(rx, y), ..m }),
        Operator::BinaryOr => Ok(StateModel { regs: m.regs.update(rx, x | y), ..m }),
        Operator::BinaryAnd => Ok(StateModel { regs: m.regs.update(rx, x & y), ..m }),
        Operator::BinaryXor => Ok(StateModel { regs: m.regs.update(rx, x ^ y), ..m }),
        Operator::Add => Ok(
            flag_result(
                m,
                rx,
                u8_specs::wrapping_add(x, y),
                if x + y > 255 {
                    1u8
                } else {
                    0u8
                },
            ),
        ),
        Operator::Subtract => Ok(flag_result(m, rx, spec_subtract(x, y).0, spec_subtract(x, y).1)),
        Operator::SubtractInverse => Ok(
            flag_result(m, rx, spec_subtract(y, x).0, spec_subtract(y, x).1),
        ),
        Operator::ShiftR => Ok(
            flag_result(
                m,
                rx,
                spec_shift(variant, x, y, false).0,
                spec_shift(variant, x, y, false).1,
            ),
        ),
        Operator::ShiftL => Ok(
            flag_result(
                m,
                rx,
                spec_shift(variant, x, y, true).0,
                spec_shift(variant, x, y, true).1,
            ),
        ),
        Operator::Unknown(code) => Err(
            Chip8Error::UnsupportedInstruction(8, arith_payload(rx, ry, code)),
        ),
    }
}

/// A conditional skip: when the comparison outcome matches the requested
/// condition, the program counter advances by one more instruction
/// (modulo the 16-bit counter).
pub open spec fn spec_skip_compare(m: StateModel, v1: u8, v2: u8, cond: bool) -> StateModel {
    if (v1 == v2) == cond {
        StateModel { pc: u16_specs::wrapping_add(m.pc, 2), ..m }
    } else {
        m
    }
}

/// The decimal conversion: the hundreds, tens and units digits of `Vx`
/// written at `index`, `index + 1` and `index + 2`. A write past the end
/// of RAM is a fatal error naming the highest address needed.
pub open spec fn spec_decimal_conversion(rx: int, m: StateModel) -> Result<
    StateModel,
    Chip8Error,
> {
    let begin = m.index as int;
    if begin + 3 > RAM_SIZE {
        Err(Chip8Error::InvalidMemoryAddress((begin + 2) as usize))
    } else {
        let x = m.regs[rx];
        Ok(
            StateModel {
                ram: m.ram.update(begin, (x / 100) as u8).update(begin + 1, ((x / 10) % 10) as u8)
                    .update(begin + 2, (x % 10) as u8),
                ..m
            },
        )
    }
}

/// The register block moves: registers `V0 ..= Vx` copied to or from RAM
/// starting at `index`. CosmacVip leaves `index` advanced by the number of
/// registers copied; Chip48 leaves it unchanged. A copy that would run
/// past the end of RAM is a fatal error naming the highest address needed.
pub open spec fn spec_memory_copy(
    variant: InterpreterVariant,
    store: bool,
    rx: int,
    m: StateModel,
) -> Result<StateModel, Chip8Error> {
    let begin = m.index as int;
    if begin + rx + 1 > RAM_SIZE {
        Err(Chip8Error::InvalidMemoryAddress((begin + rx) as usize))
    } else {
        let new_index = match variant {
            InterpreterVariant::CosmacVip => (begin + rx + 1) as u16,
            InterpreterVariant::Chip48 => m.index,
        };
        if store {
            Ok(
                StateModel {
                    ram: Seq::new(
                        m.ram.len(),
                        |a: int|
                            if begin <= a <= begin + rx {
                                m.regs[a - begin]
                            } else {
                                m.ram[a]
                            },
                    ),
                    index: new_index,
                    ..m
                },
            )
        } else {
            Ok(
                StateModel {
                    regs: Seq::new(
                        m.regs.len(),
                        |i: int|
                            if 0 <= i <= rx {
                                m.ram[begin + i]
                            } else {
                                m.regs[i]
                            },
                    ),
                    index: new_index,
                    ..m
                },
            )
        }
    }
}

/// The sprite draw: the starting coordinate is wrapped into the grid by
/// modulo (once, not per pixel), `n` sprite rows are read from RAM at
/// `index` and XORed onto the grid, and VF reports whether any pixel went
/// from on to off. A sprite read past the end of RAM is a fatal error
/// naming the highest address needed.
pub open spec fn spec_draw(rx: int, ry: int, n: u8, m: StateModel) -> Result<
    StateModel,
    Chip8Error,
> {
    let begin = m.index as int;
    if begin + n > RAM_SIZE {
        Err(Chip8Error::InvalidMemoryAddress((begin + n - 1) as usize))
    } else {
        let w = m.screen_w as int;
        let h = m.screen_h as int;
        let sx = (m.regs[rx] as int) % w;
        let sy = (m.regs[ry] as int) % h;
        let sprite = m.ram.subrange(begin, begin + n);
        let collision = exists|i: int|
            0 <= i < m.screen.len() && m.screen[i] && sprite_covers(sprite, sx, sy, w, i);
        Ok(
            StateModel {
                screen: Seq::new(
                    m.screen.len(),
                    |i: int| m.screen[i] != sprite_covers(sprite, sx, sy, w, i),
                ),
                regs: m.regs.update(
                    REGISTERS_SIZE - 1,
                    if collision {
                        1u8
                    } else {
                        0u8
                    },
                ),
                ..m
            },
        )
    }
}

/// The lowest-numbered key currently held, scanning from `i` upward.
pub open spec fn first_pressed_from(keys: Seq<bool>, i: int) -> Option<u8>
    decreases 16 - i,
{
    if i < 0 || i >= 16 {
        None
    } else if keys[i] {
        Some(i as u8)
    } else {
        first_pressed_from(keys, i + 1)
    }
}

/// The lowest-numbered key currently held, if any.
pub open spec fn spec_first_pressed(keys: Seq<bool>) -> Option<u8> {
    first_pressed_from(keys, 0)
}

/// The complete execution semantics: what one decoded instruction does to
/// the machine state. `rnd` is the byte the random source produced for
/// this step; only the `Random` instruction reads it.
pub open spec fn execute_model(
    variant: InterpreterVariant,
    font: u16,
    inst: Instruction,
    m: StateModel,
    rnd: u8,
) -> Result<StateModel, Chip8Error> {
    match inst {
        Instruction::ClearScreen => Ok(
            StateModel { screen: Seq::new(m.screen.len(), |i: int| false), ..m },
        ),
        Instruction::Jump(address) => Ok(StateModel { pc: address, ..m }),
        Instruction::SubroutineCall(address) => if m.stack.len() < 16 {
            Ok(StateModel { stack: m.stack.push(m.pc), pc: address, ..m })
        } else {
            Err(Chip8Error::StackOverflow)
        },
        Instruction::SubroutineReturn => if m.stack.len() > 0 {
            Ok(StateModel { pc: m.stack.last(), stack: m.stack.drop_last(), ..m })
        } else {
            Err(Chip8Error::StackUnderflow)
        },
        Instruction::SkipEqualValue(rx, value, cond) => Ok(
            spec_skip_compare(m, m.regs[rx as int], value, cond),
        ),
        Instruction::SkipEqualRegister(rx, ry, cond) => Ok(
            spec_skip_compare(m, m.regs[rx as int], m.regs[ry as int], cond),
        ),
        Instruction::SetRegister(rx, value) => Ok(
            StateModel { regs: m.regs.update(rx as int, value), ..m },
        ),
        Instruction::AddValueRegister(rx, value) => Ok(
            StateModel {
                regs: m.regs.update(rx as int, u8_specs::wrapping_add(value, m.regs[rx as int])),
                ..m
            },
        ),
        Instruction::Arithmetic(rx, ry, op) => spec_arithmetic(variant, op, rx as int, ry as int, m),
        Instruction::SetIndex(value) => Ok(StateModel { index: value, ..m }),
        Instruction::JumpOffset(rx, offset) => {
            let base = match variant {
                InterpreterVariant::CosmacVip => m.regs[0],
                InterpreterVariant::Chip48 => m.regs[rx as int],
            };
            Ok(StateModel { pc: (base + offset) as u16, ..m })
        },
        Instruction::Random(rx, mask) => Ok(
            StateModel { regs: m.regs.update(rx as int, rnd & mask), ..m },
        ),
        Instruction::Draw(rx, ry, n) => spec_draw(rx as int, ry as int, n, m),
        Instruction::SkipIfKey(rx, if_pressed) => {
            let key = m.regs[rx as int];
            let pressed = key < 16 && m.keys[key as int];
            if pressed == if_pressed {
                Ok(StateModel { pc: u16_specs::wrapping_add(m.pc, 2), ..m })
            } else {
                Ok(m)
            }
        },
        Instruction::ReadDelayTimer(rx) => Ok(
            StateModel { regs: m.regs.update(rx as int, m.delay), ..m },
        ),
        Instruction::SetDelayTimer(rx) => Ok(StateModel { delay: m.regs[rx as int], ..m }),
        Instruction::SetSoundTimer(rx) => Ok(StateModel { sound: m.regs[rx as int], ..m }),
        Instruction::AddToIndex(rx) => {
            let new_index = u16_specs::wrapping_add(m.index, m.regs[rx as int] as u16);
            // The overflow-into-addressing-space quirk: VF is set only on
            // the transition past 0xFFF and is never cleared here.
            if m.index <= 0xFFF && new_index > 0xFFF {
                Ok(
                    StateModel {
                        index: new_index,
                        regs: m.regs.update(REGISTERS_SIZE - 1, 1u8),
                        ..m
                    },
                )
            } else {
                Ok(StateModel { index: new_index, ..m })
            }
        },
        Instruction::GetKey(rx) => match spec_first_pressed(m.keys) {
            // Wait-for-key without blocking the single thread: with a key
            // held its code lands in Vx; with none held the program counter
            // steps back one instruction, so the fetch retries this
            // instruction on the next tick.
            Some(k) => Ok(StateModel { regs: m.regs.update(rx as int, k), ..m }),
            None => Ok(StateModel { pc: u16_specs::wrapping_sub(m.pc, 2), ..m }),
        },
        Instruction::FontCharacter(rx) => Ok(
            StateModel { index: (font + (m.regs[rx as int] & 0x0F) * 5) as u16, ..m },
        ),
        Instruction::DecimalConversion(rx) => spec_decimal_conversion(rx as int, m),
        Instruction::StoreRegisters(rx) => spec_memory_copy(variant, true, rx as int, m),
        Instruction::LoadRegisters(rx) => spec_memory_copy(variant, false, rx as int, m),
        Instruction::System => Ok(m),
        Instruction::Unsupported(opcode, value) => Err(
            Chip8Error::UnsupportedInstruction(opcode, value),
        ),
    }
}

/// How the outcome of one executed instruction relates a pre-state to a
/// post-state: on success the post-state is exactly the model's; on a
/// fault the error is the model's and the state is untouched.
pub open spec fn execute_matches(
    variant: InterpreterVariant,
    font: u16,
    inst: Instruction,
    pre: StateModel,
    post: StateModel,
    r: Result<(), Chip8Error>,
    rnd: u8,
) -> bool {
    match execute_model(variant, font, inst, pre, rnd) {
        Ok(m) => r == Ok::<(), Chip8Error>(()) && post == m,
        Err(e) => r == Err::<(), Chip8Error>(e) && post == pre,
    }
}

/// How one whole fetch-decode-execute step relates a pre-state to a
/// post-state: the two instruction bytes are read at the program counter
/// (a fatal error past the end of RAM), the counter advances by 2 before
/// execution, and the decoded instruction executes per `execute_model`.
/// On an execution fault the counter keeps its advanced value.
pub open spec fn step_matches(
    variant: InterpreterVariant,
    font: u16,
    pre: StateModel,
    post: StateModel,
    r: Result<(), Chip8Error>,
    rnd: u8,
) -> bool {
    if pre.pc + 1 < RAM_SIZE {
        let fetched = StateModel { pc: (pre.pc + 2) as u16, ..pre };
        let inst = spec_decode(pre.ram[pre.pc as int], pre.ram[pre.pc as int + 1]);
        match execute_model(variant, font, inst, fetched, rnd) {
            Ok(m) => r == Ok::<(), Chip8Error>(()) && post == m,
            Err(e) => r == Err::<(), Chip8Error>(e) && post == fetched,
        }
    } else {
        let fault = if pre.pc < RAM_SIZE {
            (pre.pc + 1) as usize
        } else {
            pre.pc as usize
        };
        r == Err::<(), Chip8Error>(Chip8Error::InvalidMemoryAddress(fault)) && post == pre
    }
}

impl Interpreter {
    /// The font table the interpreter points `FontCharacter` at must lie
    /// inside RAM.
    pub open spec fn wf(&self) -> bool {
        self.font_address + 80 <= RAM_SIZE
    }

    pub fn new(variant: InterpreterVariant, font_address: u16) -> (i: Self)
        requires
            font_address + 80 <= RAM_SIZE,
        ensures
            i.wf(),
            i.variant == variant,
            i.font_address == font_address,
    {
        Self { variant, font_address }
    }

    /// One fetch-decode-execute cycle. The random byte the `Random`
    /// instruction consumes is drawn inside, so the contract holds for
    /// some byte; everything else is exact.
    pub fn game_step(&self, state: &mut State) -> (r: Result<(), Chip8Error>)
        requires
            self.wf(),
            old(state).wf(),
        ensures
            final(state).wf(),
            exists|rnd: u8|
                #[trigger] step_matches(
                    self.variant,
                    self.font_address,
                    old(state)@,
                    final(state)@,
                    r,
                    rnd,
                ),
    {
        let fetched = match fetch(state) {
            Ok(bytes) => bytes,
            Err(e) => {
                proof {
                    assert(step_matches(
                        self.variant,
                        self.font_address,
                        old(state)@,
                        state@,
                        Err::<(), Chip8Error>(e),
                        0u8,
                    ));
                }
                return Err(e);
            },
        };
        let (byte1, byte2) = fetched;
        let instruction = decode(byte1, byte2);
        let rnd = random_byte();
        let r = self.execute_with(instruction, state, rnd);
        proof {
            assert(step_matches(
                self.variant,
                self.font_address,
                old(state)@,
                state@,
                r,
                rnd,
            ));
        }
        r
    }

    /// Executes one decoded instruction, drawing the random byte inside:
    /// the contract holds for some byte, and is exact for every
    /// instruction but `Random`.
    pub fn execute(&self, instruction: Instruction, state: &mut State) -> (r: Result<
        (),
        Chip8Error,
    >)
        requires
            self.wf(),
            old(state).wf(),
            inst_wf(instruction),
        ensures
            final(state).wf(),
            exists|rnd: u8|
                #[trigger] execute_matches(
                    self.variant,
                    self.font_address,
                    instruction,
                    old(state)@,
                    final(state)@,
                    r,
                    rnd,
                ),
    {
        let rnd = random_byte();
        let r = self.execute_with(instruction, state, rnd);
        proof {
            assert(execute_matches(
                self.variant,
                self.font_address,
                instruction,
                old(state)@,
                state@,
                r,
                rnd,
            ));
        }
        r
    }

    /// Executes one decoded instruction with the random byte supplied by
    /// the caller: a deterministic, exact transition.
    pub fn execute_with(&self, instruction: Instruction, state: &mut State, rnd: u8) -> (r: Result<
        (),
        Chip8Error,
    >)
        requires
            self.wf(),
            old(state).wf(),
            inst_wf(instruction),
        ensures
            final(state).wf(),
            execute_matches(
                self.variant,
                self.font_address,
                instruction,
                old(state)@,
                final(state)@,
                r,
                rnd,
            ),
    {
        match instruction {
            Instruction::ClearScreen => {
                state.screen.clear();
                proof {
                    assert(state@ =~= (StateModel {
                        screen: Seq::new(old(state)@.screen.len(), |i: int| false),
                        ..old(state)@
                    }));
                }
                Ok(())
            },
            Instruction::Jump(address) => {
                state.program_counter = address;
                Ok(())
            },
            Instruction::SubroutineCall(address) => {
                let pc = state.program_counter;
                match state.stack.push(pc) {
                    Ok(_) => {
                        state.program_counter = address;
                        Ok(())
                    },
                    Err(e) => Err(e),
                }
            },
            Instruction::SubroutineReturn => {
                match state.stack.pop() {
                    Ok(address) => {
                        state.program_counter = address;
                        Ok(())
                    },
                    Err(e) => Err(e),
                }
            },
            Instruction::SkipEqualValue(rx, value, skip_condition) => {
                let vx = state.register(rx);
                skip_compare(state, vx, value, skip_condition);
                Ok(())
            },
            Instruction::SkipEqualRegister(rx, ry, skip_condition) => {
                let vx = state.register(rx);
                let vy = state.register(ry);
                skip_compare(state, vx, vy, skip_condition);
                Ok(())
            },
            Instruction::SetRegister(rx, value) => {
                state.set_register(rx, value);
                Ok(())
            },
            Instruction::AddValueRegister(rx, value) => {
                let vx = state.register(rx);
                state.set_register(rx, value.wrapping_add(vx));
                Ok(())
            },
            Instruction::Arithmetic(rx, ry, arithmetic_operator) => self.arithmetic_operation(
                state,
                rx,
                ry,
                arithmetic_operator,
            ),
            Instruction::SetIndex(value) => {
                state.index = value;
                Ok(())
            },
            Instruction::JumpOffset(register_x, offset) => {
                self.jump_offset(state, register_x, offset);
                Ok(())
            },
            Instruction::Random(rx, value) => {
                state.set_register(rx, rnd & value);
                Ok(())
            },
            Instruction::Draw(rx, ry, sprite_height) => draw(state, rx, ry, sprite_height),
            Instruction::SkipIfKey(rx, if_pressed) => {
                let key = state.register(rx);
                let pressed = state.keypad.is_pressed(key);
                if pressed == if_pressed {
                    state.program_counter = state.program_counter.wrapping_add(2);
                }
                Ok(())
            },
            Instruction::ReadDelayTimer(rx) => {
                let delay = state.delay_timer;
                state.set_register(rx, delay);
                Ok(())
            },
            Instruction::SetDelayTimer(rx) => {
                state.delay_timer = state.register(rx);
                Ok(())
            },
            Instruction::SetSoundTimer(rx) => {
                state.sound_timer = state.register(rx);
                Ok(())
            },
            Instruction::AddToIndex(rx) => {
                let under = state.index <= 0xFFF;
                let vx = state.register(rx);
                state.index = state.index.wrapping_add(vx as u16);
                if under && state.index > 0xFFF {
                    state.set_vf(1);
                }
                Ok(())
            },
            Instruction::GetKey(rx) => {
                match first_pressed(state) {
                    Some(key) => state.set_register(rx, key),
                    None => {
                        state.program_counter = state.program_counter.wrapping_sub(2);
                    },
                }
                Ok(())
            },
            Instruction::FontCharacter(rx) => {
                let vx = state.register(rx);
                proof {
                    assert(vx & 0x0F < 16) by (bit_vector);
                }
                state.index = self.font_address + (vx & 0x0F) as u16 * 5;
                Ok(())
            },
            Instruction::DecimalConversion(rx) => decimal_conversion(state, rx),
            Instruction::StoreRegisters(rx) => self.memory_copy(state, rx, true),
            Instruction::LoadRegisters(rx) => self.memory_copy(state, rx, false),
            Instruction::System => Ok(()),
            Instruction::Unsupported(opcode, value) => Err(
                Chip8Error::UnsupportedInstruction(opcode, value),
            ),
        }
    }

    /// Copies registers `V0 ..= Vx` to RAM (`store`) or from RAM starting
    /// at `index`; CosmacVip advances `index` past the copied block.
    pub fn memory_copy(&self, state: &mut State, rx: usize, store: bool) -> (r: Result<
        (),
        Chip8Error,
    >)
        requires
            old(state).wf(),
            rx < REGISTERS_SIZE,
        ensures
            final(state).wf(),
            match spec_memory_copy(self.variant, store, rx as int, old(state)@) {
                Ok(m) => r == Ok::<(), Chip8Error>(()) && final(state)@ == m,
                Err(e) => r == Err::<(), Chip8Error>(e) && final(state)@ == old(state)@,
            },
    {
        let begin = state.index as usize;
        if begin + rx + 1 > RAM_SIZE {
            return Err(Chip8Error::InvalidMemoryAddress(begin + rx));
        }
        if store {
            let mut i: usize = 0;
            while i <= rx
                invariant
                    state.wf(),
                    rx < REGISTERS_SIZE,
                    i <= rx + 1,
                    begin + rx + 1 <= RAM_SIZE,
                    begin == old(state)@.index,
                    state.stack == old(state).stack,
                    state.program_counter == old(state).program_counter,
                    state.index == old(state).index,
                    state.delay_timer == old(state).delay_timer,
                    state.sound_timer == old(state).sound_timer,
                    state.registers == old(state).registers,
                    state.screen == old(state).screen,
                    state.keypad == old(state).keypad,
                    state.ram@.len() == old(state).ram@.len(),
                    forall|a: int|
                        begin <= a < begin + i ==> state.ram@[a] == old(state)@.regs[a - begin],
                    forall|a: int|
                        0 <= a < RAM_SIZE && !(begin <= a < begin + i) ==> state.ram@[a] == old(
                            state,
                        )@.ram[a],
                decreases rx + 1 - i,
            {
                let value = state.register(i);
                state.ram[begin + i] = value;
                i = i + 1;
            }
            self.advance_index(state, begin, rx);
            proof {
                let m = spec_memory_copy(self.variant, store, rx as int, old(state)@).unwrap();
                assert(state@.ram =~= m.ram);
                assert(state@ =~= m);
            }
            Ok(())
        } else {
            let mut i: usize = 0;
            while i <= rx
                invariant
                    state.wf(),
                    rx < REGISTERS_SIZE,
                    i <= rx + 1,
                    begin + rx + 1 <= RAM_SIZE,
                    begin == old(state)@.index,
                    state.stack == old(state).stack,
                    state.program_counter == old(state).program_counter,
                    state.index == old(state).index,
                    state.delay_timer == old(state).delay_timer,
                    state.sound_timer == old(state).sound_timer,
                    state.ram == old(state).ram,
                    state.screen == old(state).screen,
                    state.keypad == old(state).keypad,
                    state.registers@.len() == old(state).registers@.len(),
                    forall|k: int| 0 <= k < i ==> state.registers@[k] == old(state)@.ram[begin + k],
                    forall|k: int|
                        i <= k < REGISTERS_SIZE ==> state.registers@[k] == old(state)@.regs[k],
                decreases rx + 1 - i,
            {
                let value = state.ram[begin + i];
                state.registers[i] = value;
                i = i + 1;
            }
            self.advance_index(state, begin, rx);
            proof {
                let m = spec_memory_copy(self.variant, store, rx as int, old(state)@).unwrap();
                assert(state@.regs =~= m.regs);
                assert(state@ =~= m);
            }
            Ok(())
        }
    }

    /// The variant-dependent index side effect of a register block move.
    fn advance_index(&self, state: &mut State, begin: usize, rx: usize)
        requires
            old(state).wf(),
            begin == old(state).index,
            begin + rx + 1 <= RAM_SIZE,
        ensures
            final(state).wf(),
            final(state)@ == (StateModel {
                index: match self.variant {
                    InterpreterVariant::CosmacVip => (begin + rx + 1) as u16,
                    InterpreterVariant::Chip48 => old(state).index,
                },
                ..old(state)@
            }),
    {
        match self.variant {
            InterpreterVariant::CosmacVip => {
                state.index = (begin + rx + 1) as u16;
            },
            InterpreterVariant::Chip48 => {},
        }
    }

    /// The single most significant variant divergence: CosmacVip jumps to
    /// `V0 + nnn`, Chip48 to `Vx + nnn` with `x` taken from the
    /// instruction.
    pub fn jump_offset(&self, state: &mut State, rx: usize, offset: u16)
        requires
            old(state).wf(),
            rx < REGISTERS_SIZE,
            offset < 0x1000,
        ensures
            final(state).wf(),
            final(state)@ == (StateModel {
                pc: match self.variant {
                    InterpreterVariant::CosmacVip => (old(state)@.regs[0] + offset) as u16,
                    InterpreterVariant::Chip48 => (old(state)@.regs[rx as int] + offset) as u16,
                },
                ..old(state)@
            }),
    {
        let address = match self.variant {
            InterpreterVariant::CosmacVip => state.register(0) as u16 + offset,
            InterpreterVariant::Chip48 => state.register(rx) as u16 + offset,
        };
        state.program_counter = address;
    }

    /// Dispatches one ALU operator: `Vx` is written first and the flag
    /// (where the operator has one) second, so a flag-setting operation
    /// aimed at VF leaves the flag there.
    pub fn arithmetic_operation(
        &self,
        state: &mut State,
        rx: usize,
        ry: usize,
        operator: Operator,
    ) -> (r: Result<(), Chip8Error>)
        requires
            old(state).wf(),
            rx < REGISTERS_SIZE,
            ry < REGISTERS_SIZE,
        ensures
            final(state).wf(),
            match spec_arithmetic(self.variant, operator, rx as int, ry as int, old(state)@) {
                Ok(m) => r == Ok::<(), Chip8Error>(()) && final(state)@ == m,
                Err(e) => r == Err::<(), Chip8Error>(e) && final(state)@ == old(state)@,
            },
    {
        let x = state.register(rx);
        let y = state.register(ry);
        match operator {
            Operator::Assign => {
                state.set_register(rx, y);
                Ok(())
            },
            Operator::BinaryOr => {
                state.set_register(rx, x | y);
                Ok(())
            },
            Operator::BinaryAnd => {
                state.set_register(rx, x & y);
                Ok(())
            },
            Operator::BinaryXor => {
                state.set_register(rx, x ^ y);
                Ok(())
            },
            Operator::Add => {
                let res = x.wrapping_add(y);
                let overflow: u8 = if res < x {
                    1
                } else {
                    0
                };
                state.set_register(rx, res);
                state.set_vf(overflow);
                Ok(())
            },
            Operator::Subtract => {
                let (res, no_borrow) = subtract(x, y);
                state.set_register(rx, res);
                state.set_vf(no_borrow);
                Ok(())
            },
            Operator::SubtractInverse => {
                let (res, no_borrow) = subtract(y, x);
                state.set_register(rx, res);
                state.set_vf(no_borrow);
                Ok(())
            },
            Operator::ShiftR => {
                let (res, shifted_out) = shift(&self.variant, x, y, false);
                state.set_register(rx, res);
                state.set_vf(shifted_out);
                Ok(())
            },
            Operator::ShiftL => {
                let (res, shifted_out) = shift(&self.variant, x, y, true);
                state.set_register(rx, res);
                state.set_vf(shifted_out);
                Ok(())
            },
            Operator::Unknown(code) => {
                let payload: u16 = ((rx as u16) << 8u16) | ((ry as u16) << 4u16) | ((code & 0x0F)
                    as u16);
                proof {
                    let rxw = rx as u16;
                    let ryw = ry as u16;
                    let cw = (code & 0x0F) as u16;
                    assert(cw < 16) by (bit_vector)
                        requires
                            cw == (code & 0x0F) as u16,
                    ;
                    assert((rxw << 8u16) | (ryw << 4u16) | cw == rxw * 0x100 + ryw * 0x10 + cw)
                        by (bit_vector)
                        requires
                            rxw < 16,
                            ryw < 16,
                            cw < 16,
                    ;
                }
                Err(Chip8Error::UnsupportedInstruction(8, payload))
            },
        }
    }
}

/// Reads the two instruction bytes at the program counter and advances it
/// by 2; a counter at or past the end of RAM is a fatal error.
pub fn fetch(state: &mut State) -> (r: Result<(u8, u8), Chip8Error>)
    requires
        old(state).wf(),
    ensures
        final(state).wf(),
        old(state)@.pc + 1 < RAM_SIZE ==> {
            &&& r == Ok::<(u8, u8), Chip8Error>(
                (old(state)@.ram[old(state)@.pc as int], old(state)@.ram[old(state)@.pc + 1]),
            )
            &&& final(state)@ == (StateModel { pc: (old(state)@.pc + 2) as u16, ..old(state)@ })
        },
        old(state)@.pc + 1 >= RAM_SIZE ==> {
            &&& r == Err::<(u8, u8), Chip8Error>(
                Chip8Error::InvalidMemoryAddress(
                    if old(state)@.pc < RAM_SIZE {
                        (old(state)@.pc + 1) as usize
                    } else {
                        old(state)@.pc as usize
                    },
                ),
            )
            &&& final(state)@ == old(state)@
        },
{
    let pc = state.program_counter as usize;
    let bytes = match state.read_ram_16(pc) {
        Ok(bytes) => bytes,
        Err(e) => {
            return Err(e);
        },
    };
    state.program_counter = state.program_counter + 2;
    Ok(bytes)
}

/// Writes the hundreds, tens and units decimal digits of `Vx` to RAM at
/// `index`, `index + 1` and `index + 2`.
pub fn decimal_conversion(state: &mut State, rx: usize) -> (r: Result<(), Chip8Error>)
    requires
        old(state).wf(),
        rx < REGISTERS_SIZE,
    ensures
        final(state).wf(),
        match spec_decimal_conversion(rx as int, old(state)@) {
            Ok(m) => r == Ok::<(), Chip8Error>(()) && final(state)@ == m,
            Err(e) => r == Err::<(), Chip8Error>(e) && final(state)@ == old(state)@,
        },
{
    let base_address = state.index as usize;
    if base_address + 3 > RAM_SIZE {
        return Err(Chip8Error::InvalidMemoryAddress(base_address + 2));
    }
    let x = state.register(rx);
    state.ram[base_address] = x / 100;
    state.ram[base_address + 1] = (x % 100) / 10;
    state.ram[base_address + 2] = (x % 100) % 10;
    proof {
        assert((x % 100) / 10 == (x / 10) % 10 && (x % 100) % 10 == x % 10) by (nonlinear_arith)
            requires
                0 <= x < 256,
        ;
        let m = spec_decimal_conversion(rx as int, old(state)@).unwrap();
        assert(state@.ram =~= m.ram);
        assert(state@ =~= m);
    }
    Ok(())
}

/// One shift by one bit; the source register depends on the interpreter
/// variant, and the shifted-out bit is reported for VF.
pub fn shift(variant: &InterpreterVariant, x: u8, y: u8, left: bool) -> (r: (u8, u8))
    ensures
        r == spec_shift(*variant, x, y, left),
{
    let value = match variant {
        InterpreterVariant::CosmacVip => y,
        InterpreterVariant::Chip48 => x,
    };
    if left {
        let overflow: u8 = if value & 0x80 != 0 {
            1
        } else {
            0
        };
        proof {
            assert((value & 0x80 != 0) == (value >= 0x80)) by (bit_vector);
            assert(value << 1u8 == (value * 2) % 256) by (bit_vector);
        }
        (value << 1, overflow)
    } else {
        let overflow: u8 = if value & 0x01 != 0 {
            1
        } else {
            0
        };
        proof {
            assert((value & 0x01 != 0) == (value % 2 == 1)) by (bit_vector);
            assert(value >> 1u8 == value / 2) by (bit_vector);
        }
        (value >> 1, overflow)
    }
}

/// The borrow-style subtraction: the larger operand order is kept, the
/// result is `x - y` or the absolute difference `y - x`, and the flag
/// reports "no borrow occurred".
pub fn subtract(x: u8, y: u8) -> (r: (u8, u8))
    ensures
        r == spec_subtract(x, y),
{
    if x >= y {
        return (x - y, 1);
    }
    (y - x, 0)
}

/// XOR-draws the `sprite_height`-row sprite at RAM `index` with its start
/// wrapped into the grid, and writes the collision flag to VF.
pub fn draw(state: &mut State, rx: usize, ry: usize, sprite_height: u8) -> (r: Result<
    (),
    Chip8Error,
>)
    requires
        old(state).wf(),
        rx < REGISTERS_SIZE,
        ry < REGISTERS_SIZE,
    ensures
        final(state).wf(),
        match spec_draw(rx as int, ry as int, sprite_height, old(state)@) {
            Ok(m) => r == Ok::<(), Chip8Error>(()) && final(state)@ == m,
            Err(e) => r == Err::<(), Chip8Error>(e) && final(state)@ == old(state)@,
        },
{
    let begin = state.index as usize;
    if begin + sprite_height as usize > RAM_SIZE {
        return Err(Chip8Error::InvalidMemoryAddress(begin + sprite_height as usize - 1));
    }
    let vx = state.register(rx);
    let vy = state.register(ry);
    let x = vx as usize % state.screen.dimensions.width;
    let y = vy as usize % state.screen.dimensions.height;
    proof {
        assert(x <= vx && y <= vy) by (nonlinear_arith)
            requires
                x == vx as int % state.screen.dimensions.width as int,
                y == vy as int % state.screen.dimensions.height as int,
                state.screen.dimensions.width >= 1,
                state.screen.dimensions.height >= 1,
                0 <= vx < 256,
                0 <= vy < 256,
        ;
    }
    let end = begin + sprite_height as usize;
    let sprite: &[u8] = vstd::slice::slice_subrange(state.ram.as_slice(), begin, end);
    let flipped_off = state.screen.draw_sprite(x, y, sprite);
    let overflow: u8 = if flipped_off {
        1
    } else {
        0
    };
    state.set_vf(overflow);
    proof {
        let m = spec_draw(rx as int, ry as int, sprite_height, old(state)@).unwrap();
        assert(state@.screen =~= m.screen);
        assert(state@ =~= m);
    }
    Ok(())
}

/// Advances the program counter by one extra instruction when the
/// comparison outcome matches the requested skip condition.
pub fn skip_compare(state: &mut State, value1: u8, value2: u8, skip_condition: bool)
    requires
        old(state).wf(),
    ensures
        final(state).wf(),
        final(state)@ == spec_skip_compare(old(state)@, value1, value2, skip_condition),
{
    if (value1 == value2) == skip_condition {
        state.program_counter = state.program_counter.wrapping_add(2);
    }
}

/// Scans the keypad for the lowest-numbered key currently held.
pub fn first_pressed(state: &State) -> (r: Option<u8>)
    requires
        state.wf(),
    ensures
        r == spec_first_pressed(state@.keys),
{
    let mut k: u8 = 0;
    while k < 16
        invariant
            state.wf(),
            k <= 16,
            spec_first_pressed(state@.keys) == first_pressed_from(state@.keys, k as int),
        decreases 16 - k,
    {
        if state.keypad.is_pressed(k) {
            return Some(k);
        }
        k = k + 1;
    }
    None
}

/// Relies on rand::rng and rand::Rng::random for a uniformly distributed
/// random byte from the thread-local generator. Nothing is promised of the
/// value: callers state what holds for every byte.
#[verifier::external_body]
fn random_byte() -> u8 {
    rand::rng().random()
}

} // verus!
