use chip8::instruction::{Instruction, Operator};
use chip8::interpreter::{fetch, shift, subtract, Interpreter, InterpreterVariant};
use chip8::loader::FONT_ADDRESS;
use chip8::screen_config::{Dimensions, ScreenConfig};
use chip8::state::State;
use chip8::Chip8Error;

fn fresh_state() -> State {
    let config = ScreenConfig::new(
        Dimensions::new(800, 600),
        vec![255, 255, 255, 255],
        vec![0, 0, 0, 0],
    );
    State::new(&config)
}

fn cosmac() -> Interpreter {
    Interpreter::new(InterpreterVariant::CosmacVip, FONT_ADDRESS)
}

fn chip48() -> Interpreter {
    Interpreter::new(InterpreterVariant::Chip48, FONT_ADDRESS)
}

#[test]
fn subtract_quirk_takes_absolute_difference() {
    // Vx=5, Vy=10: the result is the absolute difference 5 and VF=0 (the
    // "no borrow occurred" flag is false).
    assert_eq!(subtract(5, 10), (5, 0));
    assert_eq!(subtract(10, 5), (5, 1));
    assert_eq!(subtract(5, 5), (0, 1));
    let mut state = fresh_state();
    state.set_register(0, 5);
    state.set_register(1, 10);
    let r = chip48().execute(Instruction::Arithmetic(0, 1, Operator::Subtract), &mut state);
    assert_eq!(r, Ok(()));
    assert_eq!(state.register(0), 5);
    assert_eq!(state.vf(), 0);
}

#[test]
fn subtract_inverse_swaps_operands() {
    let mut state = fresh_state();
    state.set_register(0, 5);
    state.set_register(1, 10);
    let r = chip48().execute(
        Instruction::Arithmetic(0, 1, Operator::SubtractInverse),
        &mut state,
    );
    assert_eq!(r, Ok(()));
    assert_eq!(state.register(0), 5);
    assert_eq!(state.vf(), 1);
}

#[test]
fn add_wraps_modulo_256() {
    // The immediate add wraps with no flag effect.
    let mut state = fresh_state();
    state.set_register(2, 250);
    state.set_vf(0);
    let r = chip48().execute(Instruction::AddValueRegister(2, 10), &mut state);
    assert_eq!(r, Ok(()));
    assert_eq!(state.register(2), 4);
    assert_eq!(state.vf(), 0);
    // The ALU add wraps and sets VF on overflow.
    let mut state = fresh_state();
    state.set_register(0, 250);
    state.set_register(1, 10);
    let r = chip48().execute(Instruction::Arithmetic(0, 1, Operator::Add), &mut state);
    assert_eq!(r, Ok(()));
    assert_eq!(state.register(0), 4);
    assert_eq!(state.vf(), 1);
    // And clears VF when there is no overflow.
    let mut state = fresh_state();
    state.set_register(0, 250);
    state.set_register(1, 5);
    state.set_vf(1);
    let r = chip48().execute(Instruction::Arithmetic(0, 1, Operator::Add), &mut state);
    assert_eq!(r, Ok(()));
    assert_eq!(state.register(0), 255);
    assert_eq!(state.vf(), 0);
}

#[test]
fn jump_offset_diverges_by_variant() {
    // Identical state, different variant: CosmacVip offsets from V0,
    // Chip48 from the instruction's register.
    let mut state = fresh_state();
    state.set_register(0, 0x10);
    state.set_register(2, 0x20);
    let r = cosmac().execute(Instruction::JumpOffset(2, 0x100), &mut state);
    assert_eq!(r, Ok(()));
    assert_eq!(state.program_counter, 0x110);

    let mut state = fresh_state();
    state.set_register(0, 0x10);
    state.set_register(2, 0x20);
    let r = chip48().execute(Instruction::JumpOffset(2, 0x100), &mut state);
    assert_eq!(r, Ok(()));
    assert_eq!(state.program_counter, 0x120);
}

#[test]
fn shift_source_diverges_by_variant() {
    // CosmacVip shifts Vy into Vx; Chip48 shifts Vx in place.
    assert_eq!(shift(&InterpreterVariant::CosmacVip, 0x01, 0x81, true), (0x02, 1));
    assert_eq!(shift(&InterpreterVariant::Chip48, 0x01, 0x81, true), (0x02, 0));
    assert_eq!(shift(&InterpreterVariant::CosmacVip, 0x04, 0x03, false), (0x01, 1));
    assert_eq!(shift(&InterpreterVariant::Chip48, 0x04, 0x03, false), (0x02, 0));
    let mut state = fresh_state();
    state.set_register(0, 0x81);
    state.set_register(1, 0x01);
    let r = chip48().execute(Instruction::Arithmetic(0, 1, Operator::ShiftL), &mut state);
    assert_eq!(r, Ok(()));
    assert_eq!(state.register(0), 0x02);
    assert_eq!(state.vf(), 1);
}

#[test]
fn font_character_indexes_five_byte_glyphs() {
    let mut state = fresh_state();
    state.set_register(3, 0x0B);
    let r = cosmac().execute(Instruction::FontCharacter(3), &mut state);
    assert_eq!(r, Ok(()));
    assert_eq!(state.index, 0x050 + 11 * 5);
    assert_eq!(state.index, 0x087);
    // Only the low nibble of Vx selects the glyph.
    state.set_register(3, 0xFB);
    let r = cosmac().execute(Instruction::FontCharacter(3), &mut state);
    assert_eq!(r, Ok(()));
    assert_eq!(state.index, 0x087);
}

#[test]
fn skip_advances_program_counter_by_four_total() {
    // 0x3707: skip if V7 == 7. From pre-fetch 0x200, the fetch advances by
    // 2 and the satisfied skip by 2 more.
    let mut state = fresh_state();
    state.program_counter = 0x200;
    state.ram[0x200] = 0x37;
    state.ram[0x201] = 0x07;
    state.set_register(7, 7);
    assert_eq!(chip48().game_step(&mut state), Ok(()));
    assert_eq!(state.program_counter, 0x204);
    // 0x4707: skip if V7 != 7; V7 == 7, so only the fetch advance remains.
    let mut state = fresh_state();
    state.program_counter = 0x200;
    state.ram[0x200] = 0x47;
    state.ram[0x201] = 0x07;
    state.set_register(7, 7);
    assert_eq!(chip48().game_step(&mut state), Ok(()));
    assert_eq!(state.program_counter, 0x202);
}

#[test]
fn skip_register_compares_two_registers() {
    let mut state = fresh_state();
    state.program_counter = 0x300;
    state.set_register(1, 9);
    state.set_register(2, 9);
    let r = chip48().execute(Instruction::SkipEqualRegister(1, 2, true), &mut state);
    assert_eq!(r, Ok(()));
    assert_eq!(state.program_counter, 0x302);
    let r = chip48().execute(Instruction::SkipEqualRegister(1, 2, false), &mut state);
    assert_eq!(r, Ok(()));
    assert_eq!(state.program_counter, 0x302);
}

#[test]
fn subroutine_call_and_return() {
    let mut state = fresh_state();
    state.program_counter = 0x202;
    let r = chip48().execute(Instruction::SubroutineCall(0x400), &mut state);
    assert_eq!(r, Ok(()));
    assert_eq!(state.program_counter, 0x400);
    let r = chip48().execute(Instruction::SubroutineReturn, &mut state);
    assert_eq!(r, Ok(()));
    assert_eq!(state.program_counter, 0x202);
}

#[test]
fn subroutine_stack_faults() {
    let mut state = fresh_state();
    for _ in 0..16 {
        assert_eq!(
            chip48().execute(Instruction::SubroutineCall(0x300), &mut state),
            Ok(())
        );
    }
    assert_eq!(
        chip48().execute(Instruction::SubroutineCall(0x300), &mut state),
        Err(Chip8Error::StackOverflow)
    );
    let mut state = fresh_state();
    assert_eq!(
        chip48().execute(Instruction::SubroutineReturn, &mut state),
        Err(Chip8Error::StackUnderflow)
    );
}

#[test]
fn unsupported_instruction_is_fatal() {
    let mut state = fresh_state();
    assert_eq!(
        chip48().execute(Instruction::Unsupported(0xE, 0x123), &mut state),
        Err(Chip8Error::UnsupportedInstruction(0xE, 0x123))
    );
    // Through a whole step: 0xE123 has no defined semantics.
    let mut state = fresh_state();
    state.program_counter = 0x200;
    state.ram[0x200] = 0xE1;
    state.ram[0x201] = 0x23;
    assert_eq!(
        chip48().game_step(&mut state),
        Err(Chip8Error::UnsupportedInstruction(0xE, 0x123))
    );
    // The fetch advance still happened.
    assert_eq!(state.program_counter, 0x202);
    // An unknown ALU operator is fatal too.
    let mut state = fresh_state();
    assert_eq!(
        chip48().execute(Instruction::Arithmetic(5, 6, Operator::Unknown(8)), &mut state),
        Err(Chip8Error::UnsupportedInstruction(8, 0x568))
    );
}

#[test]
fn fetch_past_ram_is_fatal() {
    let mut state = fresh_state();
    state.program_counter = 4095;
    assert_eq!(
        chip48().game_step(&mut state),
        Err(Chip8Error::InvalidMemoryAddress(4096))
    );
    assert_eq!(state.program_counter, 4095);
    state.program_counter = 5000;
    assert_eq!(
        chip48().game_step(&mut state),
        Err(Chip8Error::InvalidMemoryAddress(5000))
    );
}

#[test]
fn fetch_reads_and_advances() {
    let mut state = fresh_state();
    state.program_counter = 0x200;
    state.ram[0x200] = 0xAB;
    state.ram[0x201] = 0xCD;
    assert_eq!(fetch(&mut state), Ok((0xAB, 0xCD)));
    assert_eq!(state.program_counter, 0x202);
}

#[test]
fn store_and_load_registers_follow_variant_index_quirk() {
    // CosmacVip advances the index by the number of registers copied.
    let mut state = fresh_state();
    state.index = 0x300;
    state.set_register(0, 11);
    state.set_register(1, 22);
    state.set_register(2, 33);
    let r = cosmac().execute(Instruction::StoreRegisters(2), &mut state);
    assert_eq!(r, Ok(()));
    assert_eq!(state.ram[0x300], 11);
    assert_eq!(state.ram[0x301], 22);
    assert_eq!(state.ram[0x302], 33);
    assert_eq!(state.ram[0x303], 0);
    assert_eq!(state.index, 0x303);
    // Chip48 leaves the index unchanged.
    let mut state = fresh_state();
    state.index = 0x300;
    state.set_register(0, 11);
    state.set_register(1, 22);
    let r = chip48().execute(Instruction::StoreRegisters(1), &mut state);
    assert_eq!(r, Ok(()));
    assert_eq!(state.index, 0x300);
    // Loading copies RAM back into the registers.
    let mut state = fresh_state();
    state.index = 0x300;
    state.ram[0x300] = 5;
    state.ram[0x301] = 6;
    state.set_register(3, 99);
    let r = chip48().execute(Instruction::LoadRegisters(1), &mut state);
    assert_eq!(r, Ok(()));
    assert_eq!(state.register(0), 5);
    assert_eq!(state.register(1), 6);
    assert_eq!(state.register(3), 99);
    // A block that would run past the end of RAM is fatal.
    let mut state = fresh_state();
    state.index = 4090;
    assert_eq!(
        chip48().execute(Instruction::StoreRegisters(8), &mut state),
        Err(Chip8Error::InvalidMemoryAddress(4098))
    );
}

#[test]
fn decimal_conversion_writes_three_digits() {
    let mut state = fresh_state();
    state.index = 0x300;
    state.set_register(4, 234);
    let r = chip48().execute(Instruction::DecimalConversion(4), &mut state);
    assert_eq!(r, Ok(()));
    assert_eq!(state.ram[0x300], 2);
    assert_eq!(state.ram[0x301], 3);
    assert_eq!(state.ram[0x302], 4);
    state.set_register(4, 7);
    let r = chip48().execute(Instruction::DecimalConversion(4), &mut state);
    assert_eq!(r, Ok(()));
    assert_eq!(state.ram[0x300], 0);
    assert_eq!(state.ram[0x301], 0);
    assert_eq!(state.ram[0x302], 7);
    state.index = 4094;
    assert_eq!(
        chip8::interpreter::decimal_conversion(&mut state, 4),
        Err(Chip8Error::InvalidMemoryAddress(4096))
    );
}

#[test]
fn add_to_index_flags_only_the_transition() {
    let mut state = fresh_state();
    state.index = 0xFFF;
    state.set_register(0, 1);
    assert_eq!(chip48().execute(Instruction::AddToIndex(0), &mut state), Ok(()));
    assert_eq!(state.index, 0x1000);
    assert_eq!(state.vf(), 1);
    // Already past 0xFFF: no further flagging, and the flag is not cleared.
    let mut state = fresh_state();
    state.index = 0x1000;
    state.set_register(0, 1);
    state.set_vf(7);
    assert_eq!(chip48().execute(Instruction::AddToIndex(0), &mut state), Ok(()));
    assert_eq!(state.index, 0x1001);
    assert_eq!(state.vf(), 7);
    // No transition below the boundary either: VF keeps its old value.
    let mut state = fresh_state();
    state.index = 0x100;
    state.set_register(0, 1);
    state.set_vf(7);
    assert_eq!(chip48().execute(Instruction::AddToIndex(0), &mut state), Ok(()));
    assert_eq!(state.index, 0x101);
    assert_eq!(state.vf(), 7);
}

#[test]
fn random_masks_the_drawn_byte() {
    let mut state = fresh_state();
    let r = chip48().execute_with(Instruction::Random(0, 0x0F), &mut state, 0xAB);
    assert_eq!(r, Ok(()));
    assert_eq!(state.register(0), 0x0B);
    // Through the nondeterministic path the mask still holds.
    let mut state = fresh_state();
    assert_eq!(chip48().execute(Instruction::Random(0, 0x0F), &mut state), Ok(()));
    assert!(state.register(0) <= 0x0F);
}

#[test]
fn get_key_waits_by_retrying() {
    let mut state = fresh_state();
    state.program_counter = 0x202;
    assert_eq!(chip48().execute(Instruction::GetKey(0), &mut state), Ok(()));
    // No key held: the counter steps back to retry the instruction.
    assert_eq!(state.program_counter, 0x200);
    state.keypad.press_key(0x5);
    state.keypad.press_key(0xA);
    assert_eq!(chip48().execute(Instruction::GetKey(0), &mut state), Ok(()));
    // The lowest-numbered held key is taken; the counter stays put.
    assert_eq!(state.register(0), 0x5);
    assert_eq!(state.program_counter, 0x200);
}

#[test]
fn skip_if_key_reads_the_keypad() {
    let mut state = fresh_state();
    state.program_counter = 0x200;
    state.set_register(1, 0x5);
    state.keypad.press_key(0x5);
    assert_eq!(chip48().execute(Instruction::SkipIfKey(1, true), &mut state), Ok(()));
    assert_eq!(state.program_counter, 0x202);
    assert_eq!(chip48().execute(Instruction::SkipIfKey(1, false), &mut state), Ok(()));
    assert_eq!(state.program_counter, 0x202);
    state.keypad.release_key(0x5);
    assert_eq!(chip48().execute(Instruction::SkipIfKey(1, false), &mut state), Ok(()));
    assert_eq!(state.program_counter, 0x204);
}

#[test]
fn timers_move_through_registers() {
    let mut state = fresh_state();
    state.delay_timer = 42;
    assert_eq!(chip48().execute(Instruction::ReadDelayTimer(3), &mut state), Ok(()));
    assert_eq!(state.register(3), 42);
    state.set_register(4, 99);
    assert_eq!(chip48().execute(Instruction::SetDelayTimer(4), &mut state), Ok(()));
    assert_eq!(state.delay_timer, 99);
    assert_eq!(chip48().execute(Instruction::SetSoundTimer(4), &mut state), Ok(()));
    assert_eq!(state.sound_timer, 99);
}

#[test]
fn draw_instruction_sets_collision_flag() {
    let mut state = fresh_state();
    state.index = 0x300;
    state.ram[0x300] = 0xFF;
    state.ram[0x301] = 0x81;
    state.set_register(0, 4);
    state.set_register(1, 3);
    assert_eq!(chip48().execute(Instruction::Draw(0, 1, 2), &mut state), Ok(()));
    assert_eq!(state.vf(), 0);
    assert_eq!(chip48().execute(Instruction::Draw(0, 1, 2), &mut state), Ok(()));
    assert_eq!(state.vf(), 1);
    // A sprite read past the end of RAM is fatal.
    let mut state = fresh_state();
    state.index = 4090;
    assert_eq!(
        chip48().execute(Instruction::Draw(0, 1, 7), &mut state),
        Err(Chip8Error::InvalidMemoryAddress(4096))
    );
}

#[test]
fn draw_wraps_the_starting_coordinate() {
    // Vx=68 on a 64-wide grid starts at column 4.
    let mut state = fresh_state();
    state.index = 0x300;
    state.ram[0x300] = 0x80;
    state.set_register(0, 68);
    state.set_register(1, 35);
    assert_eq!(chip48().execute(Instruction::Draw(0, 1, 1), &mut state), Ok(()));
    // Flipping the pixel at (4, 3) reports it was on.
    assert!(state.screen.draw_pixel(4, 3));
}

#[test]
fn clear_screen_instruction_blanks_the_grid() {
    let mut state = fresh_state();
    let blank = state.screen.pixels.clone();
    state.index = 0x300;
    state.ram[0x300] = 0xFF;
    assert_eq!(chip48().execute(Instruction::Draw(0, 1, 1), &mut state), Ok(()));
    assert_ne!(state.screen.pixels, blank);
    assert_eq!(chip48().execute(Instruction::ClearScreen, &mut state), Ok(()));
    assert_eq!(state.screen.pixels, blank);
}

#[test]
fn jump_and_set_instructions() {
    let mut state = fresh_state();
    assert_eq!(chip48().execute(Instruction::Jump(0xABC), &mut state), Ok(()));
    assert_eq!(state.program_counter, 0xABC);
    assert_eq!(chip48().execute(Instruction::SetIndex(0x123), &mut state), Ok(()));
    assert_eq!(state.index, 0x123);
    assert_eq!(chip48().execute(Instruction::SetRegister(9, 77), &mut state), Ok(()));
    assert_eq!(state.register(9), 77);
    assert_eq!(chip48().execute(Instruction::System, &mut state), Ok(()));
    assert_eq!(state.program_counter, 0xABC);
}

#[test]
fn alu_bitwise_operators() {
    let mut state = fresh_state();
    state.set_register(0, 0b1100);
    state.set_register(1, 0b1010);
    assert_eq!(
        chip48().execute(Instruction::Arithmetic(0, 1, Operator::BinaryOr), &mut state),
        Ok(())
    );
    assert_eq!(state.register(0), 0b1110);
    state.set_register(0, 0b1100);
    assert_eq!(
        chip48().execute(Instruction::Arithmetic(0, 1, Operator::BinaryAnd), &mut state),
        Ok(())
    );
    assert_eq!(state.register(0), 0b1000);
    state.set_register(0, 0b1100);
    assert_eq!(
        chip48().execute(Instruction::Arithmetic(0, 1, Operator::BinaryXor), &mut state),
        Ok(())
    );
    assert_eq!(state.register(0), 0b0110);
    assert_eq!(
        chip48().execute(Instruction::Arithmetic(0, 1, Operator::Assign), &mut state),
        Ok(())
    );
    assert_eq!(state.register(0), 0b1010);
}

#[test]
fn program_runs_from_loaded_rom() {
    // SET V0 5, then ADD V0 3, stepped straight from a loaded image.
    let mut state = fresh_state();
    let rom = vec![0x60, 0x05, 0x70, 0x03];
    chip8::loader::load_rom(&mut state, &rom).unwrap();
    chip8::loader::load_font(&mut state, chip8::loader::FONT, chip8::loader::FONT_ADDRESS);
    let interpreter = chip48();
    assert_eq!(interpreter.game_step(&mut state), Ok(()));
    assert_eq!(state.register(0), 5);
    assert_eq!(interpreter.game_step(&mut state), Ok(()));
    assert_eq!(state.register(0), 8);
    assert_eq!(state.program_counter, 0x204);
}

#[test]
fn flag_write_follows_result_write_on_vf() {
    // An ALU add aimed at VF leaves the flag, not the sum, in VF.
    let mut state = fresh_state();
    state.set_register(15, 250);
    state.set_register(1, 10);
    assert_eq!(
        chip48().execute(Instruction::Arithmetic(15, 1, Operator::Add), &mut state),
        Ok(())
    );
    assert_eq!(state.vf(), 1);
}
