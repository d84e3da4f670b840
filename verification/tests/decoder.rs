use chip8::instruction::{
    arithmetic_operator, decode, get_register_index, opcode_0, opcode_e, opcode_f, Instruction,
    Operator,
};

#[test]
fn decode_is_total_over_all_opcodes() {
    // Every 16-bit opcode decodes to some instruction: no input may fail.
    for word in 0u32..=0xFFFFu32 {
        let byte1 = (word >> 8) as u8;
        let byte2 = word as u8;
        let _ = decode(byte1, byte2);
    }
}

#[test]
fn decode_families() {
    assert_eq!(decode(0x00, 0xE0), Instruction::ClearScreen);
    assert_eq!(decode(0x00, 0xEE), Instruction::SubroutineReturn);
    assert_eq!(decode(0x00, 0x00), Instruction::System);
    assert_eq!(decode(0x1A, 0xBC), Instruction::Jump(0xABC));
    assert_eq!(decode(0x2F, 0xFF), Instruction::SubroutineCall(0xFFF));
    assert_eq!(decode(0x37, 0x07), Instruction::SkipEqualValue(7, 7, true));
    assert_eq!(decode(0x47, 0x07), Instruction::SkipEqualValue(7, 7, false));
    assert_eq!(decode(0x51, 0x20), Instruction::SkipEqualRegister(1, 2, true));
    assert_eq!(decode(0x6A, 0x42), Instruction::SetRegister(10, 0x42));
    assert_eq!(decode(0x7B, 0x01), Instruction::AddValueRegister(11, 1));
    assert_eq!(decode(0x81, 0x24), Instruction::Arithmetic(1, 2, Operator::Add));
    assert_eq!(decode(0x91, 0x20), Instruction::SkipEqualRegister(1, 2, false));
    assert_eq!(decode(0xA1, 0x23), Instruction::SetIndex(0x123));
    assert_eq!(decode(0xB1, 0x23), Instruction::JumpOffset(1, 0x123));
    assert_eq!(decode(0xC4, 0x0F), Instruction::Random(4, 0x0F));
    assert_eq!(decode(0xD1, 0x25), Instruction::Draw(1, 2, 5));
    assert_eq!(decode(0xE3, 0x9E), Instruction::SkipIfKey(3, true));
    assert_eq!(decode(0xE3, 0xA1), Instruction::SkipIfKey(3, false));
    assert_eq!(decode(0xF1, 0x07), Instruction::ReadDelayTimer(1));
    assert_eq!(decode(0xF1, 0x15), Instruction::SetDelayTimer(1));
    assert_eq!(decode(0xF1, 0x18), Instruction::SetSoundTimer(1));
    assert_eq!(decode(0xF1, 0x1E), Instruction::AddToIndex(1));
    assert_eq!(decode(0xF1, 0x0A), Instruction::GetKey(1));
    assert_eq!(decode(0xF1, 0x29), Instruction::FontCharacter(1));
    assert_eq!(decode(0xF1, 0x33), Instruction::DecimalConversion(1));
    assert_eq!(decode(0xF1, 0x55), Instruction::StoreRegisters(1));
    assert_eq!(decode(0xF1, 0x65), Instruction::LoadRegisters(1));
}

#[test]
fn decode_unrecognized_opcodes() {
    assert_eq!(decode(0xE1, 0x23), Instruction::Unsupported(0xE, 0x123));
    assert_eq!(decode(0xF1, 0x99), Instruction::Unsupported(0xF, 0x199));
    assert_eq!(
        decode(0x85, 0x68),
        Instruction::Arithmetic(5, 6, Operator::Unknown(8))
    );
}

#[test]
fn decode_helper_tables() {
    assert_eq!(opcode_0(0xE0), Instruction::ClearScreen);
    assert_eq!(opcode_0(0xEE), Instruction::SubroutineReturn);
    assert_eq!(opcode_0(0x17), Instruction::System);
    assert_eq!(arithmetic_operator(0x00), Operator::Assign);
    assert_eq!(arithmetic_operator(0x16), Operator::ShiftR);
    assert_eq!(arithmetic_operator(0x1E), Operator::ShiftL);
    assert_eq!(arithmetic_operator(0x09), Operator::Unknown(9));
    assert_eq!(opcode_e(0xE, 2, 0x9E, 0x29E), Instruction::SkipIfKey(2, true));
    assert_eq!(opcode_e(0xE, 2, 0x00, 0x200), Instruction::Unsupported(0xE, 0x200));
    assert_eq!(opcode_f(0xF, 2, 0x29, 0x229), Instruction::FontCharacter(2));
    assert_eq!(opcode_f(0xF, 2, 0x99, 0x299), Instruction::Unsupported(0xF, 0x299));
}

#[test]
fn register_index_from_nibble() {
    assert_eq!(get_register_index(0x0), 0);
    assert_eq!(get_register_index(0xF), 15);
    // A value above the low nibble falls back to its high nibble.
    assert_eq!(get_register_index(0xA0), 0xA);
}
