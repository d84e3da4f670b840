use chip8::cli::Resolution;
use chip8::run_control::RunState;
use chip8::screen_config::{Dimensions, ScreenConfig};
use chip8::state::State;
use chip8::writers::{
    game_pad, write_fn_controls, write_game_controls, write_hyphen_line, write_index,
    write_instructions, write_register, write_registers, write_stack, write_timer,
};

fn fresh_state() -> State {
    let config = ScreenConfig::new(
        Dimensions::new(800, 600),
        vec![255, 255, 255, 255],
        vec![0, 0, 0, 0],
    );
    State::new(&config)
}

#[test]
fn register_panel_formats_all_sixteen() {
    let mut state = fresh_state();
    state.set_register(10, 0xAB);
    state.set_register(0, 0x05);
    let expected = (0..16)
        .map(|i| {
            format!("V{:X}: {:#04X}", i, if i == 10 { 0xAB } else if i == 0 { 0x05 } else { 0 })
        })
        .collect::<Vec<_>>()
        .join("    ");
    assert_eq!(write_registers(&state), expected);
    assert_eq!(write_register(10, &state), "VA: 0xAB");
    assert_eq!(write_register(0, &state), "V0: 0x05");
}

#[test]
fn stack_panel_shows_all_slots_reversed() {
    let mut state = fresh_state();
    state.stack.push(0xABC).unwrap();
    state.stack.push(0x12).unwrap();
    let text = write_stack(&state);
    let lines: Vec<&str> = text.split('\n').collect();
    assert_eq!(lines.len(), 16);
    assert_eq!(lines[0], "00 0x0000");
    assert_eq!(lines[14], "14 0x0012");
    assert_eq!(lines[15], "15 0x0ABC");
}

#[test]
fn timer_panel_right_aligns_values() {
    let mut state = fresh_state();
    state.delay_timer = 7;
    state.sound_timer = 123;
    assert_eq!(write_timer(&state), "DELAY:   7   |  SOUND: 123");
    state.delay_timer = 45;
    state.sound_timer = 0;
    assert_eq!(write_timer(&state), "DELAY:  45   |  SOUND:   0");
}

#[test]
fn index_panel_pads_to_four_digits() {
    let mut state = fresh_state();
    state.index = 0x2A;
    assert_eq!(write_index(&state), "I : 0x002A");
    state.index = 0xABCD;
    assert_eq!(write_index(&state), "I : 0xABCD");
}

#[test]
fn instruction_panel_disassembles_ahead_of_pc() {
    let mut state = fresh_state();
    state.program_counter = 0x200;
    state.ram[0x200] = 0x1A;
    state.ram[0x201] = 0xBC;
    state.ram[0x202] = 0x00;
    state.ram[0x203] = 0xE0;
    let text = write_instructions(&state);
    let lines: Vec<&str> = text.split('\n').collect();
    assert_eq!(lines.len(), 32);
    assert_eq!(lines[0], "0x200: JUMP 0xABC");
    assert_eq!(lines[1], "0x202: CLR");
    assert_eq!(lines[2], "0x204: SYS");
    // Near the end of RAM only the readable slots are listed.
    let mut state = fresh_state();
    state.program_counter = 4090;
    let text = write_instructions(&state);
    let lines: Vec<&str> = text.split('\n').collect();
    assert_eq!(lines.len(), 3);
    assert_eq!(lines[0], "0xFFA: SYS");
    assert_eq!(lines[2], "0xFFE: SYS");
}

#[test]
fn control_legends_are_fixed() {
    assert_eq!(
        write_fn_controls(),
        "    F1: PLAY/PAUSE | F2: STEP | F3: RESET | F4: EXIT"
    );
    assert_eq!(write_hyphen_line(), "----------");
    assert_eq!(
        write_game_controls(),
        "   -----------\n   | 1 2 3 4 |\n_  | Q W E R |\n_  | A S D F |\n   | Z X C V |\n   -----------"
    );
    let pad = game_pad();
    assert_eq!(pad[0], [0x1, 0x2, 0x3, 0xC]);
    assert_eq!(pad[3], [0xA, 0x0, 0xB, 0xF]);
}

#[test]
fn run_state_consumes_single_steps() {
    let mut run_state = RunState::new(false, true);
    assert!(run_state.should_continue());
    assert!(!run_state.should_continue());
    let mut run_state = RunState::new(true, false);
    assert!(run_state.should_continue());
    assert!(run_state.should_continue());
}

#[test]
fn resolutions_map_to_pixel_dimensions() {
    assert_eq!(Resolution::SuperVGA.to_window_dimensions(), (800, 600));
    assert_eq!(Resolution::HD.to_window_dimensions(), (1280, 720));
    assert_eq!(Resolution::QuadVGA.to_window_dimensions(), (1280, 960));
    assert_eq!(Resolution::SuperXGA.to_window_dimensions(), (1400, 1050));
    assert_eq!(Resolution::FullHD.to_window_dimensions(), (1920, 1080));
    assert_eq!(Resolution::QuadHD.to_window_dimensions(), (2560, 1440));
    assert_eq!(Resolution::UltraWideQHD.to_window_dimensions(), (3440, 1440));
}
