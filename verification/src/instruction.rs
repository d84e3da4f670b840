//! Instruction decoding: a pure, total function from a two-byte opcode to
//! a tagged instruction variant. Every 16-bit input decodes to some
//! instruction; unrecognized opcodes decode to `Unsupported`, carrying the
//! opcode family and the 12-bit payload, and fault only when executed.

use vstd::prelude::*;

verus! {

/// The decoded instruction set. Fields follow the standard CHIP-8 field
/// encoding: register indexes `x` and `y` (each a nibble), a 4-bit
/// immediate `n`, an 8-bit immediate `nn`, and a 12-bit address `nnn`.
#[derive(Debug, Clone, Copy, PartialEq, Eq, Structural)]
pub enum Instruction {
    AddToIndex(usize),
    AddValueRegister(usize, u8),
    Arithmetic(usize, usize, Operator),
    ClearScreen,
    DecimalConversion(usize),
    Draw(usize, usize, u8),
    FontCharacter(usize),
    GetKey(usize),
    Jump(u16),
    JumpOffset(usize, u16),
    LoadRegisters(usize),
    Random(usize, u8),
    ReadDelayTimer(usize),
    SetDelayTimer(usize),
    SetIndex(u16),
    SetRegister(usize, u8),
    SetSoundTimer(usize),
    SkipEqualRegister(usize, usize, bool),
    SkipEqualValue(usize, u8, bool),
    SkipIfKey(usize, bool),
    StoreRegisters(usize),
    SubroutineCall(u16),
    SubroutineReturn,
    System,
    Unsupported(u8, u16),
}

/// The operators of the 8-way ALU opcode family.
#[derive(Debug, Clone, Copy, PartialEq, Eq, Structural)]
pub enum Operator {
    Assign,
    BinaryOr,
    BinaryAnd,
    BinaryXor,
    Add,
    Subtract,
    SubtractInverse,
    ShiftL,
    ShiftR,
    Unknown(u8),
}

/// What a well-formed decoded instruction guarantees: register indexes fit
/// the 16 registers, and a jump offset fits the 12-bit address space.
/// Every instruction produced by `decode` satisfies this.
pub open spec fn inst_wf(inst: Instruction) -> bool {
    match inst {
        Instruction::AddToIndex(x) => x < 16,
        Instruction::AddValueRegister(x, _) => x < 16,
        Instruction::Arithmetic(x, y, _) => x < 16 && y < 16,
        Instruction::ClearScreen => true,
        Instruction::DecimalConversion(x) => x < 16,
        Instruction::Draw(x, y, _) => x < 16 && y < 16,
        Instruction::FontCharacter(x) => x < 16,
        Instruction::GetKey(x) => x < 16,
        Instruction::Jump(_) => true,
        Instruction::JumpOffset(x, nnn) => x < 16 && nnn < 0x1000,
        Instruction::LoadRegisters(x) => x < 16,
        Instruction::Random(x, _) => x < 16,
        Instruction::ReadDelayTimer(x) => x < 16,
        Instruction::SetDelayTimer(x) => x < 16,
        Instruction::SetIndex(_) => true,
        Instruction::SetRegister(x, _) => x < 16,
        Instruction::SetSoundTimer(x) => x < 16,
        Instruction::SkipEqualRegister(x, y, _) => x < 16 && y < 16,
        Instruction::SkipEqualValue(x, _, _) => x < 16,
        Instruction::SkipIfKey(x, _) => x < 16,
        Instruction::StoreRegisters(x) => x < 16,
        Instruction::SubroutineCall(_) => true,
        Instruction::SubroutineReturn => true,
        Instruction::System => true,
        Instruction::Unsupported(_, _) => true,
    }
}

/// Decoding of the 0x0 family: clear screen, subroutine return, and the
/// historical machine-code call, kept as a no-op.
pub open spec fn spec_opcode_0(nn: u8) -> Instruction {
    if nn == 0xE0 {
        Instruction::ClearScreen
    } else if nn == 0xEE {
        Instruction::SubroutineReturn
    } else {
        Instruction::System
    }
}

/// Decoding of the low nibble of the 0x8 family into an ALU operator.
pub open spec fn spec_arithmetic_operator(nn: u8) -> Operator {
    let low = nn & 0x0F;
    if low == 0x0 {
        Operator::Assign
    } else if low == 0x1 {
        Operator::BinaryOr
    } else if low == 0x2 {
        Operator::BinaryAnd
    } else if low == 0x3 {
        Operator::BinaryXor
    } else if low == 0x4 {
        Operator::Add
    } else if low == 0x5 {
        Operator::Subtract
    } else if low == 0x6 {
        Operator::ShiftR
    } else if low == 0x7 {
        Operator::SubtractInverse
    } else if low == 0xE {
        Operator::ShiftL
    } else {
        Operator::Unknown(low)
    }
}

/// Decoding of the 0xE family: the two key-state conditional skips.
pub open spec fn spec_opcode_e(opcode: u8, x: usize, nn: u8, nnn: u16) -> Instruction {
    if nn == 0x9E {
        Instruction::SkipIfKey(x, true)
    } else if nn == 0xA1 {
        Instruction::SkipIfKey(x, false)
    } else {
        Instruction::Unsupported(opcode, nnn)
    }
}

/// Decoding of the 0xF family: timers, index arithmetic, key wait, font
/// lookup, decimal conversion, and the register block moves.
pub open spec fn spec_opcode_f(opcode: u8, x: usize, nn: u8, nnn: u16) -> Instruction {
    if nn == 0x07 {
        Instruction::ReadDelayTimer(x)
    } else if nn == 0x15 {
        Instruction::SetDelayTimer(x)
    } else if nn == 0x18 {
        Instruction::SetSoundTimer(x)
    } else if nn == 0x1E {
        Instruction::AddToIndex(x)
    } else if nn == 0x0A {
        Instruction::GetKey(x)
    } else if nn == 0x29 {
        Instruction::FontCharacter(x)
    } else if nn == 0x33 {
        Instruction::DecimalConversion(x)
    } else if nn == 0x55 {
        Instruction::StoreRegisters(x)
    } else if nn == 0x65 {
        Instruction::LoadRegisters(x)
    } else {
        Instruction::Unsupported(opcode, nnn)
    }
}

/// A register index read from a nibble; a value with bits above the low
/// nibble falls back to its high nibble, so the result always names one of
/// the 16 registers.
pub open spec fn spec_register_index(nibble: u8) -> usize {
    if nibble >= 16 {
        (nibble >> 4) as usize
    } else {
        nibble as usize
    }
}

/// The complete decode table, classifying by the top nibble of the high
/// byte and sub-classifying by the low byte where a family has several
/// members. Total: every byte pair maps to some instruction.
pub open spec fn spec_decode(byte1: u8, byte2: u8) -> Instruction {
    let opcode = (byte1 & 0xF0) >> 4;
    let x = spec_register_index(byte1 & 0x0F);
    let y = spec_register_index(byte2 & 0xF0);
    let n = byte2 & 0x0F;
    let nn = byte2;
    let nnn = ((byte1 as u16 & 0x0F) << 8) | byte2 as u16;
    if opcode == 0x0 {
        spec_opcode_0(nn)
    } else if opcode == 0x1 {
        Instruction::Jump(nnn)
    } else if opcode == 0x2 {
        Instruction::SubroutineCall(nnn)
    } else if opcode == 0x3 {
        Instruction::SkipEqualValue(x, nn, true)
    } else if opcode == 0x4 {
        Instruction::SkipEqualValue(x, nn, false)
    } else if opcode == 0x5 {
        Instruction::SkipEqualRegister(x, y, true)
    } else if opcode == 0x6 {
        Instruction::SetRegister(x, nn)
    } else if opcode == 0x7 {
        Instruction::AddValueRegister(x, nn)
    } else if opcode == 0x8 {
        Instruction::Arithmetic(x, y, spec_arithmetic_operator(nn))
    } else if opcode == 0x9 {
        Instruction::SkipEqualRegister(x, y, false)
    } else if opcode == 0xA {
        Instruction::SetIndex(nnn)
    } else if opcode == 0xB {
        Instruction::JumpOffset(x, nnn)
    } else if opcode == 0xC {
        Instruction::Random(x, nn)
    } else if opcode == 0xD {
        Instruction::Draw(x, y, n)
    } else if opcode == 0xE {
        spec_opcode_e(opcode, x, nn, nnn)
    } else {
        spec_opcode_f(opcode, x, nn, nnn)
    }
}

/// Decodes one two-byte opcode into exactly one instruction variant.
/// Decoding is total: there is no decode failure, and the result is always
/// well-formed.
pub fn decode(byte1: u8, byte2: u8) -> (inst: Instruction)
    ensures
        inst == spec_decode(byte1, byte2),
        inst_wf(inst),
{
    let opcode = (byte1 & 0xF0) >> 4;
    let x = get_register_index(byte1 & 0x0F);
    let y = get_register_index(byte2 & 0xF0);
    let n = byte2 & 0x0F;
    let nn = byte2;
    let nnn = ((byte1 as u16 & 0x0F) << 8) | byte2 as u16;
    proof {
        assert((((byte1 as u16 & 0x0F) << 8) | byte2 as u16) < 0x1000) by (bit_vector);
        assert((byte1 & 0xF0) >> 4 <= 0xF) by (bit_vector);
    }
    match opcode {
        0x0 => opcode_0(nn),
        0x1 => Instruction::Jump(nnn),
        0x2 => Instruction::SubroutineCall(nnn),
        0x3 => Instruction::SkipEqualValue(x, nn, true),
        0x4 => Instruction::SkipEqualValue(x, nn, false),
        0x5 => Instruction::SkipEqualRegister(x, y, true),
        0x6 => Instruction::SetRegister(x, nn),
        0x7 => Instruction::AddValueRegister(x, nn),
        0x8 => Instruction::Arithmetic(x, y, arithmetic_operator(nn)),
        0x9 => Instruction::SkipEqualRegister(x, y, false),
        0xA => Instruction::SetIndex(nnn),
        0xB => Instruction::JumpOffset(x, nnn),
        0xC => Instruction::Random(x, nn),
        0xD => Instruction::Draw(x, y, n),
        0xE => opcode_e(opcode, x, nn, nnn),
        0xF => opcode_f(opcode, x, nn, nnn),
        _ => Instruction::Unsupported(opcode, nnn),
    }
}

pub fn opcode_0(nn: u8) -> (inst: Instruction)
    ensures
        inst == spec_opcode_0(nn),
{
    match nn {
        0xE0 => Instruction::ClearScreen,
        0xEE => Instruction::SubroutineReturn,
        _ => Instruction::System,
    }
}

pub fn arithmetic_operator(nn: u8) -> (op: Operator)
    ensures
        op == spec_arithmetic_operator(nn),
{
    match nn & 0x0F {
        0x0 => Operator::Assign,
        0x1 => Operator::BinaryOr,
        0x2 => Operator::BinaryAnd,
        0x3 => Operator::BinaryXor,
        0x4 => Operator::Add,
        0x5 => Operator::Subtract,
        0x6 => Operator::ShiftR,
        0x7 => Operator::SubtractInverse,
        0xE => Operator::ShiftL,
        _ => Operator::Unknown(nn & 0x0F),
    }
}

pub fn opcode_e(opcode: u8, x: usize, nn: u8, nnn: u16) -> (inst: Instruction)
    ensures
        inst == spec_opcode_e(opcode, x, nn, nnn),
{
    match nn {
        0x9E => Instruction::SkipIfKey(x, true),
        0xA1 => Instruction::SkipIfKey(x, false),
        _ => Instruction::Unsupported(opcode, nnn),
    }
}

pub fn opcode_f(opcode: u8, x: usize, nn: u8, nnn: u16) -> (inst: Instruction)
    ensures
        inst == spec_opcode_f(opcode, x, nn, nnn),
{
    match nn {
        0x07 => Instruction::ReadDelayTimer(x),
        0x15 => Instruction::SetDelayTimer(x),
        0x18 => Instruction::SetSoundTimer(x),
        0x1E => Instruction::AddToIndex(x),
        0x0A => Instruction::GetKey(x),
        0x29 => Instruction::FontCharacter(x),
        0x33 => Instruction::DecimalConversion(x),
        0x55 => Instruction::StoreRegisters(x),
        0x65 => Instruction::LoadRegisters(x),
        _ => Instruction::Unsupported(opcode, nnn),
    }
}

pub fn get_register_index(nibble: u8) -> (index: usize)
    ensures
        index == spec_register_index(nibble),
        index < 16,
{
    proof {
        assert(nibble >> 4 < 16) by (bit_vector);
    }
    let mut index = nibble;
    if index >= 16 {
        index = index >> 4;
    }
    index as usize
}

} // verus!
