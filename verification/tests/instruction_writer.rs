use chip8::instruction::{Instruction, Operator};
use chip8::writers::{print_arithmetic, print_instruction, PrintableInstruction};

#[test]
fn test_print_instruction() {
    assert_eq!(
        print_instruction(&Instruction::SkipEqualValue(15, 250, true)),
        "SKEQ VF 250"
    );
    assert_eq!(
        print_instruction(&Instruction::SkipEqualValue(8, 120, false)),
        "SKNE V8 120"
    );
    assert_eq!(
        print_instruction(&Instruction::SkipEqualRegister(4, 7, true)),
        "SKEQ V4 V7"
    );
    assert_eq!(
        print_instruction(&Instruction::SkipEqualRegister(10, 12, false)),
        "SKNE VA VC"
    );
}

#[test]
fn test_print_simple_mnemonics() {
    assert_eq!(print_instruction(&Instruction::System), "SYS");
    assert_eq!(print_instruction(&Instruction::ClearScreen), "CLR");
    assert_eq!(print_instruction(&Instruction::SubroutineReturn), "RET");
    assert_eq!(print_instruction(&Instruction::Unsupported(0xE, 0x123)), "UNKNOWN");
}

#[test]
fn test_print_addresses_and_values() {
    assert_eq!(print_instruction(&Instruction::Jump(0x2A0)), "JUMP 0x2A0");
    assert_eq!(print_instruction(&Instruction::SubroutineCall(0x005)), "CALL 0x5");
    assert_eq!(print_instruction(&Instruction::SetRegister(3, 200)), "SET V3 200");
    assert_eq!(print_instruction(&Instruction::AddValueRegister(12, 0)), "ADD VC 0");
    assert_eq!(print_instruction(&Instruction::SetIndex(4095)), "SETI 4095");
    assert_eq!(print_instruction(&Instruction::JumpOffset(2, 256)), "JMPO V2 256");
    assert_eq!(print_instruction(&Instruction::Random(1, 15)), "RND V1 15");
    assert_eq!(print_instruction(&Instruction::Draw(0, 15, 5)), "DRW V0 VF 5");
    assert_eq!(print_instruction(&Instruction::SkipIfKey(4, true)), "SKPKEY V4");
    assert_eq!(print_instruction(&Instruction::SkipIfKey(4, false)), "SKPNKEY V4");
    assert_eq!(print_instruction(&Instruction::SetDelayTimer(1)), "WDLY V1");
    assert_eq!(print_instruction(&Instruction::ReadDelayTimer(1)), "RDLY V1");
    assert_eq!(print_instruction(&Instruction::SetSoundTimer(9)), "WSND V9");
    assert_eq!(print_instruction(&Instruction::AddToIndex(2)), "ADDI V2");
    assert_eq!(print_instruction(&Instruction::GetKey(0)), "KEY V0");
    assert_eq!(print_instruction(&Instruction::FontCharacter(11)), "FONT VB");
    assert_eq!(print_instruction(&Instruction::DecimalConversion(6)), "CONV V6");
    assert_eq!(print_instruction(&Instruction::LoadRegisters(5)), "LOAD V5");
    assert_eq!(print_instruction(&Instruction::StoreRegisters(5)), "STORE V5");
}

#[test]
fn test_print_arithmetic_mnemonics() {
    assert_eq!(print_arithmetic(&1, &2, &Operator::Assign), "SET V1 V2");
    assert_eq!(print_arithmetic(&1, &2, &Operator::BinaryOr), "OR V1 V2");
    assert_eq!(print_arithmetic(&1, &2, &Operator::BinaryAnd), "AND V1 V2");
    assert_eq!(print_arithmetic(&1, &2, &Operator::BinaryXor), "XOR V1 V2");
    assert_eq!(print_arithmetic(&1, &2, &Operator::Add), "ADD V1 V2");
    assert_eq!(print_arithmetic(&1, &2, &Operator::Subtract), "SUB V1 V2");
    assert_eq!(print_arithmetic(&1, &2, &Operator::SubtractInverse), "SUBI V1 V2");
    assert_eq!(print_arithmetic(&1, &2, &Operator::ShiftL), "SHL V1 V2");
    assert_eq!(print_arithmetic(&1, &2, &Operator::ShiftR), "SHR V1 V2");
    assert_eq!(print_arithmetic(&15, &0, &Operator::Unknown(9)), "UKN VF V0");
}

#[test]
fn test_printable_instruction_line() {
    let printable = PrintableInstruction::new(0x200, (0x00, 0xE0));
    assert_eq!(printable.instruction, Instruction::ClearScreen);
    assert_eq!(printable.address, 0x200);
}
