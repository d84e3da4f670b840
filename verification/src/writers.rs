//! Text for the diagnostic panels: a disassembly of the instructions ahead
//! of the program counter, the register, stack, index and timer readouts,
//! and the static control legends. Every writer's output is pinned down
//! exactly, so the panels show precisely the machine state.

use crate::instruction::{decode, spec_decode, Instruction, Operator};
use crate::state::{State, StateModel, RAM_SIZE};
use crate::text::{
    spec_udec, spec_uhex, space_pad, udec_pad2, udec_space3, udec_string, uhex_pad2, uhex_pad4,
    uhex_string, zero_pad,
};
use vstd::prelude::*;

verus! {

use vstd::string::StringExecFns;

/// The 4x4 keypad layout as presented to the player.
pub const LAYOUT: [[u8; 4]; 4] = [
    [0x1, 0x2, 0x3, 0xC],
    [0x4, 0x5, 0x6, 0xD],
    [0x7, 0x8, 0x9, 0xE],
    [0xA, 0x0, 0xB, 0xF],
];

/// The mnemonic of one ALU operator.
pub open spec fn spec_operator_name(operator: Operator) -> Seq<char> {
    match operator {
        Operator::Assign => "SET"@,
        Operator::BinaryOr => "OR"@,
        Operator::BinaryAnd => "AND"@,
        Operator::BinaryXor => "XOR"@,
        Operator::Add => "ADD"@,
        Operator::Subtract => "SUB"@,
        Operator::SubtractInverse => "SUBI"@,
        Operator::ShiftL => "SHL"@,
        Operator::ShiftR => "SHR"@,
        Operator::Unknown(_) => "UKN"@,
    }
}

/// The text of a conditional skip: the mnemonic, the first register, and
/// the second operand already rendered.
pub open spec fn spec_conditional_skip(x: int, v2: Seq<char>, skip_equal: bool) -> Seq<char> {
    (if skip_equal {
        "SKEQ V"@
    } else {
        "SKNE V"@
    }) + spec_uhex(x) + " "@ + v2
}

/// The text of an ALU instruction: mnemonic and both registers.
pub open spec fn spec_print_arithmetic(x: int, y: int, operator: Operator) -> Seq<char> {
    spec_operator_name(operator) + " V"@ + spec_uhex(x) + " V"@ + spec_uhex(y)
}

/// The display text of each instruction: a mnemonic of at most twelve
/// characters, registers in hexadecimal and immediates in decimal.
pub open spec fn spec_print_instruction(inst: Instruction) -> Seq<char> {
    match inst {
        Instruction::System => "SYS"@,
        Instruction::ClearScreen => "CLR"@,
        Instruction::Jump(address) => "JUMP 0x"@ + spec_uhex(address as int),
        Instruction::SubroutineCall(address) => "CALL 0x"@ + spec_uhex(address as int),
        Instruction::SubroutineReturn => "RET"@,
        Instruction::SkipEqualValue(x, value, skip_equal) => spec_conditional_skip(
            x as int,
            spec_udec(value as int),
            skip_equal,
        ),
        Instruction::SkipEqualRegister(x, y, skip_equal) => spec_conditional_skip(
            x as int,
            "V"@ + spec_uhex(y as int),
            skip_equal,
        ),
        Instruction::SetRegister(x, value) => "SET V"@ + spec_uhex(x as int) + " "@ + spec_udec(
            value as int,
        ),
        Instruction::AddValueRegister(x, value) => "ADD V"@ + spec_uhex(x as int) + " "@
            + spec_udec(value as int),
        Instruction::Arithmetic(x, y, operator) => spec_print_arithmetic(
            x as int,
            y as int,
            operator,
        ),
        Instruction::SetIndex(value) => "SETI "@ + spec_udec(value as int),
        Instruction::JumpOffset(x, value) => "JMPO V"@ + spec_uhex(x as int) + " "@ + spec_udec(
            value as int,
        ),
        Instruction::Random(x, value) => "RND V"@ + spec_uhex(x as int) + " "@ + spec_udec(
            value as int,
        ),
        Instruction::Draw(x, y, count) => "DRW V"@ + spec_uhex(x as int) + " V"@ + spec_uhex(
            y as int,
        ) + " "@ + spec_udec(count as int),
        Instruction::SkipIfKey(x, pressed) => (if pressed {
            "SKPKEY V"@
        } else {
            "SKPNKEY V"@
        }) + spec_uhex(x as int),
        Instruction::SetDelayTimer(x) => "WDLY V"@ + spec_uhex(x as int),
        Instruction::ReadDelayTimer(x) => "RDLY V"@ + spec_uhex(x as int),
        Instruction::SetSoundTimer(x) => "WSND V"@ + spec_uhex(x as int),
        Instruction::AddToIndex(x) => "ADDI V"@ + spec_uhex(x as int),
        Instruction::GetKey(x) => "KEY V"@ + spec_uhex(x as int),
        Instruction::FontCharacter(x) => "FONT V"@ + spec_uhex(x as int),
        Instruction::DecimalConversion(x) => "CONV V"@ + spec_uhex(x as int),
        Instruction::LoadRegisters(x) => "LOAD V"@ + spec_uhex(x as int),
        Instruction::StoreRegisters(x) => "STORE V"@ + spec_uhex(x as int),
        Instruction::Unsupported(_, _) => "UNKNOWN"@,
    }
}

/// One disassembly line: the address and the instruction text.
pub open spec fn spec_instruction_line(addr: int, inst: Instruction) -> Seq<char> {
    "0x"@ + spec_uhex(addr) + ": "@ + spec_print_instruction(inst)
}

/// The disassembly of instruction slots `i` through 31 ahead of the
/// program counter, one line each, newline-separated; slots past the end
/// of RAM produce nothing.
pub open spec fn spec_instruction_lines(m: StateModel, i: int) -> Seq<char>
    decreases 32 - i,
{
    if i < 0 || i >= 32 || m.pc + 2 * i + 1 >= RAM_SIZE {
        Seq::empty()
    } else {
        let addr = m.pc + 2 * i;
        let line = spec_instruction_line(addr, spec_decode(m.ram[addr], m.ram[addr + 1]));
        let rest = spec_instruction_lines(m, i + 1);
        if rest.len() == 0 {
            line
        } else {
            line + "\n"@ + rest
        }
    }
}

/// One register readout: the register name and its value in hexadecimal.
pub open spec fn spec_register_entry(i: int, v: u8) -> Seq<char> {
    "V"@ + spec_uhex(i) + ": 0x"@ + zero_pad(spec_uhex(v as int), 2)
}

/// The readouts of registers `i` through 15, separated by four spaces.
pub open spec fn spec_register_row(regs: Seq<u8>, i: int) -> Seq<char>
    decreases 16 - i,
{
    if i < 0 || i >= 16 {
        Seq::empty()
    } else {
        let entry = spec_register_entry(i, regs[i]);
        let rest = spec_register_row(regs, i + 1);
        if rest.len() == 0 {
            entry
        } else {
            entry + "    "@ + rest
        }
    }
}

/// One stack slot readout: the display row number and the slot value.
pub open spec fn spec_stack_entry(i: int, v: u16) -> Seq<char> {
    zero_pad(spec_udec(i), 2) + " 0x"@ + zero_pad(spec_uhex(v as int), 4)
}

/// The stack display from row `i` down: all 16 backing slots, most
/// recently written end first, newline-separated.
pub open spec fn spec_stack_rows(slots: Seq<u16>, i: int) -> Seq<char>
    decreases 16 - i,
{
    if i < 0 || i >= 16 {
        Seq::empty()
    } else {
        let entry = spec_stack_entry(i, slots[15 - i]);
        let rest = spec_stack_rows(slots, i + 1);
        if rest.len() == 0 {
            entry
        } else {
            entry + "\n"@ + rest
        }
    }
}

/// The disassembly panel: the next 32 instruction slots starting at the
/// program counter, which must point at a readable instruction.
pub fn write_instructions(state: &State) -> (s: String)
    requires
        state.wf(),
        state@.pc + 1 < RAM_SIZE,
    ensures
        s@ == spec_instruction_lines(state@, 0),
{
    write_instructions_from(state, 0)
}

fn write_instructions_from(state: &State, i: usize) -> (s: String)
    requires
        state.wf(),
        i <= 32,
    ensures
        s@ == spec_instruction_lines(state@, i as int),
    decreases 32 - i,
{
    if i >= 32 {
        return String::new();
    }
    let addr = state.program_counter as usize + 2 * i;
    match read_printable_instruction(state, addr) {
        None => String::new(),
        Some(printable) => {
            let mut s = printable.print(state);
            let rest = write_instructions_from(state, i + 1);
            proof {
                reveal_strlit("0x");
            }
            if i + 1 < 32 && addr + 3 < RAM_SIZE {
                s.append("\n");
                s.append(rest.as_str());
            }
            s
        },
    }
}

fn read_printable_instruction(state: &State, addr: usize) -> (r: Option<PrintableInstruction>)
    requires
        state.wf(),
    ensures
        addr + 1 < RAM_SIZE ==> r == Some(
            PrintableInstruction {
                address: addr,
                instruction: spec_decode(state@.ram[addr as int], state@.ram[addr + 1]),
            },
        ),
        addr + 1 >= RAM_SIZE ==> r == None::<PrintableInstruction>,
{
    match state.read_ram_16(addr) {
        Ok(bytes) => Some(PrintableInstruction::new(addr, bytes)),
        Err(_) => None,
    }
}

/// A decoded instruction together with the address it was read from, ready
/// for the disassembly panel.
#[derive(Debug, Clone, Copy, PartialEq, Eq, Structural)]
pub struct PrintableInstruction {
    pub address: usize,
    pub instruction: Instruction,
}

impl PrintableInstruction {
    /// The disassembly line for this instruction.
    pub fn print(&self, _state: &State) -> (s: String)
        ensures
            s@ == spec_instruction_line(self.address as int, self.instruction),
    {
        let mut s = String::from_str("0x");
        let num = uhex_string(self.address as u64);
        s.append(num.as_str());
        s.append(": ");
        let text = print_instruction(&self.instruction);
        s.append(text.as_str());
        s
    }

    pub fn new(address: usize, bytes: (u8, u8)) -> (p: Self)
        ensures
            p == (PrintableInstruction { address, instruction: spec_decode(bytes.0, bytes.1) }),
    {
        let instruction = decode(bytes.0, bytes.1);
        Self { address, instruction }
    }
}

/// A method to print out instructions in a clear way.
///
/// This method prints out the `Instruction` as a 12 (maximum)
/// character-long `String` for representation on the debug screen. If the
/// `Instruction` has parameters, they will be formatted depending on their
/// type.
pub fn print_instruction(instruction: &Instruction) -> (s: String)
    ensures
        s@ == spec_print_instruction(*instruction),
{
    match instruction {
        Instruction::System => String::from_str("SYS"),
        Instruction::ClearScreen => String::from_str("CLR"),
        Instruction::Jump(address) => {
            let mut s = String::from_str("JUMP 0x");
            let num = uhex_string(*address as u64);
            s.append(num.as_str());
            s
        },
        Instruction::SubroutineCall(address) => {
            let mut s = String::from_str("CALL 0x");
            let num = uhex_string(*address as u64);
            s.append(num.as_str());
            s
        },
        Instruction::SubroutineReturn => String::from_str("RET"),
        Instruction::SkipEqualValue(x, value, skip_equal) => {
            let operand = udec_string(*value as u64);
            print_conditional_skip(x, operand, *skip_equal)
        },
        Instruction::SkipEqualRegister(x, y, skip_equal) => {
            let mut operand = String::from_str("V");
            let num = uhex_string(*y as u64);
            operand.append(num.as_str());
            print_conditional_skip(x, operand, *skip_equal)
        },
        Instruction::SetRegister(x, value) => register_value_line("SET V", *x, *value as u64),
        Instruction::AddValueRegister(x, value) => register_value_line("ADD V", *x, *value as u64),
        Instruction::Arithmetic(x, y, operator) => print_arithmetic(x, y, operator),
        Instruction::SetIndex(value) => {
            let mut s = String::from_str("SETI ");
            let num = udec_string(*value as u64);
            s.append(num.as_str());
            s
        },
        Instruction::JumpOffset(x, value) => register_value_line("JMPO V", *x, *value as u64),
        Instruction::Random(x, value) => register_value_line("RND V", *x, *value as u64),
        Instruction::Draw(x, y, count) => {
            let mut s = String::from_str("DRW V");
            let num_x = uhex_string(*x as u64);
            s.append(num_x.as_str());
            s.append(" V");
            let num_y = uhex_string(*y as u64);
            s.append(num_y.as_str());
            s.append(" ");
            let num_n = udec_string(*count as u64);
            s.append(num_n.as_str());
            s
        },
        Instruction::SkipIfKey(x, pressed) => {
            let mut s = if *pressed {
                String::from_str("SKPKEY V")
            } else {
                String::from_str("SKPNKEY V")
            };
            let num = uhex_string(*x as u64);
            s.append(num.as_str());
            s
        },
        Instruction::SetDelayTimer(x) => register_line("WDLY V", *x),
        Instruction::ReadDelayTimer(x) => register_line("RDLY V", *x),
        Instruction::SetSoundTimer(x) => register_line("WSND V", *x),
        Instruction::AddToIndex(x) => register_line("ADDI V", *x),
        Instruction::GetKey(x) => register_line("KEY V", *x),
        Instruction::FontCharacter(x) => register_line("FONT V", *x),
        Instruction::DecimalConversion(x) => register_line("CONV V", *x),
        Instruction::LoadRegisters(x) => register_line("LOAD V", *x),
        Instruction::StoreRegisters(x) => register_line("STORE V", *x),
        Instruction::Unsupported(_, _) => String::from_str("UNKNOWN"),
    }
}

/// A mnemonic followed by one register name.
fn register_line(mnemonic: &str, x: usize) -> (s: String)
    ensures
        s@ == mnemonic@ + spec_uhex(x as int),
{
    let mut s = String::from_str(mnemonic);
    let num = uhex_string(x as u64);
    s.append(num.as_str());
    s
}

/// A mnemonic, one register name, a space, and a decimal immediate.
fn register_value_line(mnemonic: &str, x: usize, value: u64) -> (s: String)
    ensures
        s@ == mnemonic@ + spec_uhex(x as int) + " "@ + spec_udec(value as int),
{
    let mut s = String::from_str(mnemonic);
    let num = uhex_string(x as u64);
    s.append(num.as_str());
    s.append(" ");
    let val = udec_string(value);
    s.append(val.as_str());
    s
}

/// The text of an ALU instruction.
pub fn print_arithmetic(x: &usize, y: &usize, operator: &Operator) -> (s: String)
    ensures
        s@ == spec_print_arithmetic(*x as int, *y as int, *operator),
{
    let cmd = match operator {
        Operator::Assign => "SET",
        Operator::BinaryOr => "OR",
        Operator::BinaryAnd => "AND",
        Operator::BinaryXor => "XOR",
        Operator::Add => "ADD",
        Operator::Subtract => "SUB",
        Operator::SubtractInverse => "SUBI",
        Operator::ShiftL => "SHL",
        Operator::ShiftR => "SHR",
        Operator::Unknown(_) => "UKN",
    };
    let mut s = String::from_str(cmd);
    s.append(" V");
    let num_x = uhex_string(*x as u64);
    s.append(num_x.as_str());
    s.append(" V");
    let num_y = uhex_string(*y as u64);
    s.append(num_y.as_str());
    s
}

/// The text of a conditional skip with the second operand already
/// rendered.
pub fn print_conditional_skip(x: &usize, v2: String, skip_equal: bool) -> (s: String)
    ensures
        s@ == spec_conditional_skip(*x as int, v2@, skip_equal),
{
    let mut s = if skip_equal {
        String::from_str("SKEQ V")
    } else {
        String::from_str("SKNE V")
    };
    let num = uhex_string(*x as u64);
    s.append(num.as_str());
    s.append(" ");
    s.append(v2.as_str());
    s
}

/// The register panel: all 16 registers on one line.
pub fn write_registers(state: &State) -> (s: String)
    requires
        state.wf(),
    ensures
        s@ == spec_register_row(state@.regs, 0),
{
    write_registers_from(state, 0)
}

fn write_registers_from(state: &State, i: usize) -> (s: String)
    requires
        state.wf(),
        i <= 16,
    ensures
        s@ == spec_register_row(state@.regs, i as int),
    decreases 16 - i,
{
    if i >= 16 {
        return String::new();
    }
    let mut s = write_register(i, state);
    let rest = write_registers_from(state, i + 1);
    proof {
        reveal_strlit("V");
    }
    if i + 1 < 16 {
        s.append("    ");
        s.append(rest.as_str());
    }
    s
}

/// One register readout.
pub fn write_register(index: usize, state: &State) -> (s: String)
    requires
        state.wf(),
        index < 16,
    ensures
        s@ == spec_register_entry(index as int, state@.regs[index as int]),
{
    let mut s = String::from_str("V");
    let num = uhex_string(index as u64);
    s.append(num.as_str());
    s.append(": 0x");
    let value = uhex_pad2(state.register(index));
    s.append(value.as_str());
    s
}

/// The stack panel: all 16 backing slots, most recently written end first.
pub fn write_stack(state: &State) -> (s: String)
    requires
        state.wf(),
    ensures
        s@ == spec_stack_rows(state.stack.slots(), 0),
{
    let entries = state.stack.read_all();
    stack_rows_from(&entries, 0, Ghost(state.stack.slots()))
}

fn stack_rows_from(entries: &Vec<u16>, i: usize, Ghost(slots): Ghost<Seq<u16>>) -> (s: String)
    requires
        entries@.len() == 16,
        slots.len() == 16,
        i <= 16,
        forall|j: int| 0 <= j < 16 ==> entries@[j] == slots[15 - j],
    ensures
        s@ == spec_stack_rows(slots, i as int),
    decreases 16 - i,
{
    if i >= 16 {
        return String::new();
    }
    let mut s = udec_pad2(i as u8);
    s.append(" 0x");
    let value = uhex_pad4(entries[i]);
    s.append(value.as_str());
    let rest = stack_rows_from(entries, i + 1, Ghost(slots));
    proof {
        vstd::arithmetic::div_mod::lemma_fundamental_div_mod(i as int, 1);
        crate::text::lemma_udec_len_pos(i as int);
    }
    if i + 1 < 16 {
        s.append("\n");
        s.append(rest.as_str());
    }
    s
}

/// The timer panel: the delay and sound timers side by side.
pub fn write_timer(state: &State) -> (s: String)
    requires
        state.wf(),
    ensures
        s@ == "DELAY: "@ + space_pad(spec_udec(state@.delay as int), 3) + "   |  SOUND: "@
            + space_pad(spec_udec(state@.sound as int), 3),
{
    let mut s = String::from_str("DELAY: ");
    let delay = udec_space3(state.delay_timer);
    s.append(delay.as_str());
    s.append("   |  SOUND: ");
    let sound = udec_space3(state.sound_timer);
    s.append(sound.as_str());
    s
}

/// The index register readout.
pub fn write_index(state: &State) -> (s: String)
    requires
        state.wf(),
    ensures
        s@ == "I : 0x"@ + zero_pad(spec_uhex(state@.index as int), 4),
{
    let mut s = String::from_str("I : 0x");
    let num = uhex_pad4(state.index);
    s.append(num.as_str());
    s
}

/// The function-key legend.
pub fn write_fn_controls() -> (s: String)
    ensures
        s@ == "    F1: PLAY/PAUSE | F2: STEP | F3: RESET | F4: EXIT"@,
{
    String::from_str("    F1: PLAY/PAUSE | F2: STEP | F3: RESET | F4: EXIT")
}

/// The physical-key legend for the game pad.
pub fn write_game_controls() -> (s: String)
    ensures
        s@ == "   -----------\n   | 1 2 3 4 |\n_  | Q W E R |\n_  | A S D F |\n   | Z X C V |\n   -----------"@,
{
    String::from_str(
        "   -----------\n   | 1 2 3 4 |\n_  | Q W E R |\n_  | A S D F |\n   | Z X C V |\n   -----------",
    )
}

/// The keypad layout, row by row.
pub fn game_pad() -> (r: [[u8; 4]; 4])
    ensures
        r == LAYOUT,
{
    LAYOUT
}

/// The horizontal rule drawn above and below the pressed-key display.
pub fn write_hyphen_line() -> (s: String)
    ensures
        s@ == "----------"@,
{
    String::from_str("----------")
}

} // verus!
