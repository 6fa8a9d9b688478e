use chip8_emu::disasm::disassemble;
use chip8_emu::driver::{ExecutionState, MyApp};

#[test]
fn mnemonics_match_the_table() {
    assert_eq!(disassemble(0x00E0), "CLS");
    assert_eq!(disassemble(0x00EE), "RET");
    assert_eq!(disassemble(0x0123), "SYS  0x123");
    assert_eq!(disassemble(0x1300), "JP   0x300");
    assert_eq!(disassemble(0x2045), "CALL 0x045");
    assert_eq!(disassemble(0x330A), "SE   V3, 0x0A");
    assert_eq!(disassemble(0x4D07), "SNE  VD, 0x07");
    assert_eq!(disassemble(0x5120), "SE   V1, V2");
    assert_eq!(disassemble(0x6A02), "LD   VA, 0x02");
    assert_eq!(disassemble(0x7203), "ADD  V2, 0x03");
}

#[test]
fn arithmetic_family_mnemonics() {
    assert_eq!(disassemble(0x8120), "LD   V1, V2");
    assert_eq!(disassemble(0x8121), "OR   V1, V2");
    assert_eq!(disassemble(0x8122), "AND  V1, V2");
    assert_eq!(disassemble(0x8123), "XOR  V1, V2");
    assert_eq!(disassemble(0x8124), "ADD  V1, V2");
    assert_eq!(disassemble(0x8125), "SUB  V1, V2");
    assert_eq!(disassemble(0x8126), "SHR  V1");
    assert_eq!(disassemble(0x8127), "SUBN V1, V2");
    assert_eq!(disassemble(0x812E), "SHL  V1");
    assert_eq!(disassemble(0x800F), "UNKNOWN 8..");
}

#[test]
fn remaining_family_mnemonics() {
    assert_eq!(disassemble(0x9120), "SNE  V1, V2");
    assert_eq!(disassemble(0xA123), "LD   I, 0x123");
    assert_eq!(disassemble(0xB300), "JP   V0, 0x300");
    assert_eq!(disassemble(0xC0F0), "RND  V0, 0xF0");
    assert_eq!(disassemble(0xD125), "DRW  V1, V2, 5");
    assert_eq!(disassemble(0xE09E), "SKP  V0");
    assert_eq!(disassemble(0xE0A1), "SKNP V0");
    assert_eq!(disassemble(0xE055), "UNKNOWN E..");
    assert_eq!(disassemble(0xF207), "LD   V2, DT");
    assert_eq!(disassemble(0xF30A), "LD   V3, K");
    assert_eq!(disassemble(0xF115), "LD   DT, V1");
    assert_eq!(disassemble(0xF118), "LD   ST, V1");
    assert_eq!(disassemble(0xF61E), "ADD  I, V6");
    assert_eq!(disassemble(0xF229), "LD   F, V2");
    assert_eq!(disassemble(0xF533), "LD   B, V5");
    assert_eq!(disassemble(0xF355), "LD   [I], V3");
    assert_eq!(disassemble(0xF365), "LD   V3, [I]");
    assert_eq!(disassemble(0xF3FF), "UNKNOWN F..");
}

#[test]
fn shell_starts_running_with_rom_applied() {
    let rom = vec![0x60u8, 0x05, 0x70, 0x03];
    let app = MyApp::new(Some(&rom));
    assert_eq!(app.cycles_per_frame, 10);
    assert_eq!(app.execution_state, ExecutionState::Running);
    assert!(!app.debugger_open);
    assert!(!app.step_requested);
    assert!(app.rom_to_load.is_none());
    assert_eq!(app.chip8.memory[0x200], 0x60);
    assert_eq!(app.chip8.pc, 0x200);
}

#[test]
fn shell_ignores_oversized_rom() {
    let rom = vec![0xEEu8; 4000];
    let app = MyApp::new(Some(&rom));
    assert_eq!(app.chip8.memory[0x200], 0);
}

#[test]
fn frame_runs_cycles_then_ticks() {
    let rom = vec![0x60u8, 0x05, 0x70, 0x03];
    let mut app = MyApp::new(Some(&rom));
    app.chip8.delay_timer = 3;
    app.run_frame();
    assert_eq!(app.chip8.v[0], 8);
    assert_eq!(app.chip8.delay_timer, 2);
}

#[test]
fn paused_frame_steps_once_on_request() {
    let rom = vec![0x60u8, 0x05, 0x70, 0x03];
    let mut app = MyApp::new(Some(&rom));
    app.execution_state = ExecutionState::Paused;
    app.run_frame();
    assert_eq!(app.chip8.pc, 0x200);
    app.step_requested = true;
    app.run_frame();
    assert_eq!(app.chip8.pc, 0x202);
    assert_eq!(app.chip8.v[0], 5);
    assert!(!app.step_requested);
}

#[test]
fn read_opcode_is_big_endian() {
    let rom = vec![0x6Au8, 0x02];
    let app = MyApp::new(Some(&rom));
    assert_eq!(app.chip8.read_opcode(0x200), 0x6A02);
    assert_eq!(disassemble(app.chip8.read_opcode(0x200)), "LD   VA, 0x02");
}
