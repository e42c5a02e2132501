use trustychip::constants::{
    AUDIO_SAMPLES_PER_FRAME, FONT_ADDRESS, GAME_ADDRESS, MAX_GAME_SIZE, NUM_PIXELS, SCREEN_WIDTH,
    TOTAL_MEMORY,
};
use trustychip::frame::{load_game, run, run_with, unload_game, Emulator, LoadError};
use trustychip::instruction::{decode, Instruction};
use trustychip::screen::{ChipScreen, PixelState};
use trustychip::state::{init, ChipState, Fatal};

const NO_KEYS: [bool; 16] = [false; 16];

fn machine_with(program: &[u8]) -> Emulator {
    let mut emu = Emulator::new();
    load_game(&mut emu, program).unwrap();
    emu
}

fn steps(emu: &mut Emulator, n: usize) {
    for _ in 0..n {
        emu.state.step(&NO_KEYS, 0).unwrap();
    }
}

fn lit(screen: &ChipScreen) -> Vec<usize> {
    (0..NUM_PIXELS)
        .filter(|&i| screen.pixel(i) == PixelState::White)
        .collect()
}

#[test]
fn add_sets_carry_flag() {
    for &(a, b, sum, carry) in &[(200u8, 100u8, 44u8, 1u8), (10, 20, 30, 0), (255, 1, 0, 1), (128, 127, 255, 0)] {
        let mut emu = machine_with(&[0x63, a, 0x6A, b, 0x83, 0xA4]);
        steps(&mut emu, 3);
        assert_eq!(emu.state.v[3], sum);
        assert_eq!(emu.state.v[0xF], carry);
        assert_eq!(emu.state.v[0xA], b);
        assert_eq!(emu.state.pc, GAME_ADDRESS + 6);
    }
}

#[test]
fn sub_sets_no_borrow_flag() {
    for &(a, b, diff, no_borrow) in &[(5u8, 3u8, 2u8, 1u8), (3, 5, 254, 0), (7, 7, 0, 1), (0, 255, 1, 0)] {
        let mut emu = machine_with(&[0x61, a, 0x62, b, 0x81, 0x25]);
        steps(&mut emu, 3);
        assert_eq!(emu.state.v[1], diff);
        assert_eq!(emu.state.v[0xF], no_borrow);
    }
}

#[test]
fn reverse_sub_and_shifts() {
    // V1 = 5, V2 = 3, V1 = V2 - V1 = 254 with a borrow
    let mut emu = machine_with(&[0x61, 0x05, 0x62, 0x03, 0x81, 0x27]);
    steps(&mut emu, 3);
    assert_eq!(emu.state.v[1], 254);
    assert_eq!(emu.state.v[0xF], 0);

    // V4 = 0x81; V5 = V4 >> 1; then V6 = V4 << 1
    let mut emu = machine_with(&[0x64, 0x81, 0x85, 0x46, 0x86, 0x4E]);
    steps(&mut emu, 2);
    assert_eq!(emu.state.v[5], 0x40);
    assert_eq!(emu.state.v[0xF], 1);
    steps(&mut emu, 1);
    assert_eq!(emu.state.v[6], 0x02);
    assert_eq!(emu.state.v[0xF], 1);
}

#[test]
fn logic_ops_and_add_immediate() {
    let mut emu = machine_with(&[
        0x61, 0b1100, 0x62, 0b1010, 0x83, 0x10, 0x83, 0x21, 0x84, 0x10, 0x84, 0x22, 0x85, 0x10,
        0x85, 0x23, 0x7F, 0x01, 0x71, 0xFF,
    ]);
    emu.state.v[0xF] = 7;
    steps(&mut emu, 10);
    assert_eq!(emu.state.v[3], 0b1110);
    assert_eq!(emu.state.v[4], 0b1000);
    assert_eq!(emu.state.v[5], 0b0110);
    // 7xkk wraps and leaves the flag alone
    assert_eq!(emu.state.v[0xF], 8);
    assert_eq!(emu.state.v[1], 0b1011);
}

#[test]
fn blit_on_blank_reads_back_and_restores() {
    let sprite = [0xF0u8, 0x90, 0x90, 0x90, 0xF0];
    let mut screen = ChipScreen::new();
    // (67, 34) wraps to (3, 2)
    let collided = screen.render_sprite(&sprite, 67, 34);
    assert!(!collided);
    for row in 0..32 {
        for col in 0..64 {
            let expected = row >= 2
                && row < 7
                && col >= 3
                && col < 11
                && (sprite[row - 2] >> (7 - (col - 3))) & 1 == 1;
            assert_eq!(screen.pixel(row * SCREEN_WIDTH + col) == PixelState::White, expected);
        }
    }
    let collided = screen.render_sprite(&sprite, 67, 34);
    assert!(collided);
    assert!(lit(&screen).is_empty());
}

#[test]
fn blit_of_blank_sprite_reports_no_collision() {
    let mut screen = ChipScreen::new();
    assert!(!screen.render_sprite(&[0x00, 0x00], 0, 0));
    assert!(!screen.render_sprite(&[0x00, 0x00], 0, 0));
    assert!(lit(&screen).is_empty());
}

#[test]
fn blit_clips_at_right_and_bottom_edges() {
    let mut screen = ChipScreen::new();
    screen.render_sprite(&[0xFF, 0xFF, 0xFF, 0xFF], 60, 30);
    let expected: Vec<usize> = vec![
        30 * 64 + 60,
        30 * 64 + 61,
        30 * 64 + 62,
        30 * 64 + 63,
        31 * 64 + 60,
        31 * 64 + 61,
        31 * 64 + 62,
        31 * 64 + 63,
    ];
    assert_eq!(lit(&screen), expected);
}

#[test]
fn collision_only_on_set_to_unset() {
    let mut screen = ChipScreen::new();
    assert!(!screen.render_sprite(&[0x80], 0, 0));
    // a different cell toggles on: no collision
    assert!(!screen.render_sprite(&[0x40], 0, 0));
    // turning cell 0 off is a collision
    assert!(screen.render_sprite(&[0x80], 0, 0));
    assert_eq!(lit(&screen), vec![1]);
}

#[test]
fn draw_instruction_uses_memory_at_i_and_sets_flag() {
    // I = glyph of 0 (V0 = 0), draw it at (V1, V2) = (0, 0) twice
    let mut emu = machine_with(&[0xF0, 0x29, 0xD1, 0x25, 0xD1, 0x25]);
    steps(&mut emu, 2);
    assert_eq!(emu.state.i as usize, FONT_ADDRESS);
    assert_eq!(emu.state.v[0xF], 0);
    assert_eq!(lit(&emu.state.screen).len(), 14);
    steps(&mut emu, 1);
    assert_eq!(emu.state.v[0xF], 1);
    assert!(lit(&emu.state.screen).is_empty());
}

#[test]
fn clear_blanks_the_screen() {
    let mut emu = machine_with(&[0xF0, 0x29, 0xD0, 0x05, 0x00, 0xE0]);
    steps(&mut emu, 2);
    assert!(!lit(&emu.state.screen).is_empty());
    steps(&mut emu, 1);
    assert!(lit(&emu.state.screen).is_empty());
    assert_eq!(emu.state.pc, GAME_ADDRESS + 6);
}

#[test]
fn jump_sets_pc_exactly() {
    let mut emu = machine_with(&[0x1A, 0xBC]);
    steps(&mut emu, 1);
    assert_eq!(emu.state.pc, 0xABC);
}

#[test]
fn jump_with_offset_adds_v0() {
    let mut emu = machine_with(&[0x60, 0x10, 0xB3, 0x00]);
    steps(&mut emu, 2);
    assert_eq!(emu.state.pc, 0x310);
}

#[test]
fn call_then_return_resumes_after_call() {
    // 0x200: call 0x300; 0x300: return
    let mut program = vec![0u8; 0x102];
    program[0] = 0x23;
    program[1] = 0x00;
    program[0x100] = 0x00;
    program[0x101] = 0xEE;
    let mut emu = machine_with(&program);
    steps(&mut emu, 1);
    assert_eq!(emu.state.pc, 0x300);
    assert_eq!(emu.state.stack_depth(), 1);
    steps(&mut emu, 1);
    assert_eq!(emu.state.pc, 0x202);
    assert_eq!(emu.state.stack_depth(), 0);
}

#[test]
fn return_on_empty_stack_is_fatal() {
    let mut emu = machine_with(&[0x00, 0xEE]);
    assert_eq!(emu.state.step(&NO_KEYS, 0), Err(Fatal::StackUnderflow));
    assert_eq!(emu.state.pc, GAME_ADDRESS);
}

#[test]
fn call_beyond_stack_depth_is_fatal() {
    // a subroutine that calls itself
    let mut emu = machine_with(&[0x22, 0x00]);
    steps(&mut emu, 16);
    assert_eq!(emu.state.stack_depth(), 16);
    assert_eq!(emu.state.step(&NO_KEYS, 0), Err(Fatal::StackOverflow));
    assert_eq!(emu.state.stack_depth(), 16);
}

#[test]
fn legacy_machine_call_is_ignored() {
    let mut emu = machine_with(&[0x01, 0x23]);
    steps(&mut emu, 1);
    assert_eq!(emu.state.pc, GAME_ADDRESS + 2);
}

#[test]
fn skips_on_immediates_and_registers() {
    // V1 = 7; skip if V1 == 7; (skipped); skip if V1 != 7 (not taken)
    let mut emu = machine_with(&[0x61, 0x07, 0x31, 0x07, 0x00, 0x00, 0x41, 0x07]);
    steps(&mut emu, 2);
    assert_eq!(emu.state.pc, GAME_ADDRESS + 6);
    steps(&mut emu, 1);
    assert_eq!(emu.state.pc, GAME_ADDRESS + 8);

    // V1 = 7, V2 = 7: 5120 skips, 9120 does not
    let mut emu = machine_with(&[0x61, 0x07, 0x62, 0x07, 0x51, 0x20, 0x00, 0x00, 0x91, 0x20]);
    steps(&mut emu, 3);
    assert_eq!(emu.state.pc, GAME_ADDRESS + 8);
    steps(&mut emu, 1);
    assert_eq!(emu.state.pc, GAME_ADDRESS + 10);
}

#[test]
fn decode_of_5123_is_invalid() {
    assert_eq!(decode(0x5123), None);
    assert_eq!(decode(0x5120), Some(Instruction::SkipEqReg { x: 1, y: 2 }));
    let mut emu = machine_with(&[0x51, 0x23]);
    assert_eq!(
        emu.state.step(&NO_KEYS, 0),
        Err(Fatal::InvalidInstruction { opcode: 0x5123 })
    );
}

#[test]
fn decode_extracts_operands() {
    assert_eq!(decode(0x00E0), Some(Instruction::Clear));
    assert_eq!(decode(0x00EE), Some(Instruction::Return));
    assert_eq!(decode(0x0123), Some(Instruction::MachineCall { addr: 0x123 }));
    assert_eq!(decode(0x8AB4), Some(Instruction::AddReg { x: 10, y: 11 }));
    assert_eq!(decode(0x8ABE), Some(Instruction::ShiftLeft { x: 10, y: 11 }));
    assert_eq!(decode(0xD12F), Some(Instruction::Draw { x: 1, y: 2, n: 15 }));
    assert_eq!(decode(0xC3F0), Some(Instruction::Random { x: 3, kk: 0xF0 }));
    assert_eq!(decode(0xF765), Some(Instruction::LoadRegs { x: 7 }));
    assert_eq!(decode(0xE59E), Some(Instruction::SkipKeyPressed { x: 5 }));
    assert_eq!(decode(0x8AB8), None);
    assert_eq!(decode(0x9AB1), None);
    assert_eq!(decode(0xE5A2), None);
    assert_eq!(decode(0xF500), None);
}

#[test]
fn key_skips_follow_key_state() {
    let mut keys = [false; 16];
    keys[0xB] = true;
    let mut emu = machine_with(&[0x61, 0x0B, 0xE1, 0x9E, 0x00, 0x00, 0xE1, 0xA1]);
    emu.state.step(&keys, 0).unwrap();
    emu.state.step(&keys, 0).unwrap();
    assert_eq!(emu.state.pc, GAME_ADDRESS + 6);
    emu.state.step(&keys, 0).unwrap();
    assert_eq!(emu.state.pc, GAME_ADDRESS + 8);
    // with no key pressed ExA1 skips
    emu.state.pc = GAME_ADDRESS + 6;
    emu.state.step(&NO_KEYS, 0).unwrap();
    assert_eq!(emu.state.pc, GAME_ADDRESS + 10);
}

#[test]
fn wait_for_key_blocks_until_pressed() {
    let mut emu = machine_with(&[0xF3, 0x0A]);
    steps(&mut emu, 3);
    assert_eq!(emu.state.pc, GAME_ADDRESS);
    let mut keys = [false; 16];
    keys[9] = true;
    keys[12] = true;
    emu.state.step(&keys, 0).unwrap();
    assert_eq!(emu.state.v[3], 9);
    assert_eq!(emu.state.pc, GAME_ADDRESS + 2);
}

#[test]
fn timers_and_address_register() {
    // V1 = 9; DT = V1; ST = V1; V2 = DT; I = 0xFFF; I += V1
    let mut emu = machine_with(&[0x61, 0x09, 0xF1, 0x15, 0xF1, 0x18, 0xF2, 0x07, 0xAF, 0xFF, 0xF1, 0x1E]);
    steps(&mut emu, 6);
    assert_eq!(emu.state.dt, 9);
    assert_eq!(emu.state.st, 9);
    assert_eq!(emu.state.v[2], 9);
    assert_eq!(emu.state.i, 0x1008);
}

#[test]
fn glyph_address_selects_digit_sprite() {
    let mut emu = machine_with(&[0x64, 0x1A, 0xF4, 0x29]);
    steps(&mut emu, 2);
    assert_eq!(emu.state.i as usize, FONT_ADDRESS + 5 * 0xA);
    assert_eq!(emu.state.mem.read(emu.state.i as usize), 0xF0);
    assert_eq!(emu.state.mem.read(emu.state.i as usize + 4), 0x90);
}

#[test]
fn bcd_stores_decimal_digits() {
    let mut emu = machine_with(&[0x62, 254, 0xA3, 0x00, 0xF2, 0x33]);
    steps(&mut emu, 3);
    assert_eq!(emu.state.mem.read(0x300), 2);
    assert_eq!(emu.state.mem.read(0x301), 5);
    assert_eq!(emu.state.mem.read(0x302), 4);
    assert_eq!(emu.state.i, 0x300);
}

#[test]
fn store_and_load_registers() {
    let mut emu = machine_with(&[0x60, 1, 0x61, 2, 0x62, 3, 0xA4, 0x00, 0xF1, 0x55, 0xA4, 0x00, 0xF2, 0x65]);
    steps(&mut emu, 5);
    assert_eq!(emu.state.mem.read(0x400), 1);
    assert_eq!(emu.state.mem.read(0x401), 2);
    assert_eq!(emu.state.mem.read(0x402), 0);
    assert_eq!(emu.state.i, 0x402);
    emu.state.v[2] = 99;
    steps(&mut emu, 2);
    assert_eq!(emu.state.v[0], 1);
    assert_eq!(emu.state.v[1], 2);
    assert_eq!(emu.state.v[2], 0);
    assert_eq!(emu.state.i, 0x403);
}

#[test]
fn memory_access_past_the_end_is_fatal() {
    let mut emu = machine_with(&[0xAF, 0xFE, 0xF2, 0x33, 0xFF, 0x55, 0xD0, 0x03]);
    steps(&mut emu, 1);
    assert_eq!(emu.state.step(&NO_KEYS, 0), Err(Fatal::AddressOutOfRange));
    emu.state.pc += 2;
    assert_eq!(emu.state.step(&NO_KEYS, 0), Err(Fatal::AddressOutOfRange));
    emu.state.pc += 2;
    assert_eq!(emu.state.step(&NO_KEYS, 0), Err(Fatal::AddressOutOfRange));

    let mut state = init();
    state.pc = TOTAL_MEMORY - 1;
    assert_eq!(state.step(&NO_KEYS, 0), Err(Fatal::AddressOutOfRange));
}

#[test]
fn random_byte_is_masked() {
    let mut emu = machine_with(&[0xC1, 0x0F]);
    emu.state.step(&NO_KEYS, 0xAB).unwrap();
    assert_eq!(emu.state.v[1], 0x0B);

    let mut emu = machine_with(&[0xC1, 0x00]);
    emu.state.tick(&NO_KEYS).unwrap();
    assert_eq!(emu.state.v[1], 0);
}

#[test]
fn tick_draws_varying_random_bytes() {
    let mut seen = std::collections::HashSet::new();
    for _ in 0..64 {
        let mut emu = machine_with(&[0xC1, 0xFF]);
        emu.state.tick(&NO_KEYS).unwrap();
        assert_eq!(emu.state.pc, GAME_ADDRESS + 2);
        seen.insert(emu.state.v[1]);
    }
    assert!(seen.len() > 1);
}

#[test]
fn init_loads_font_and_zeroes_the_rest() {
    let state: ChipState = init();
    assert_eq!(state.pc, GAME_ADDRESS);
    assert_eq!(state.mem.read(FONT_ADDRESS), 0xF0);
    assert_eq!(state.mem.read(FONT_ADDRESS + 5), 0x20);
    assert_eq!(state.mem.read(FONT_ADDRESS + 79), 0x80);
    assert_eq!(state.mem.read(FONT_ADDRESS + 80), 0);
    assert_eq!(state.mem.read(0), 0);
    assert_eq!(state.v, [0u8; 16]);
    assert_eq!(state.stack_depth(), 0);
    let fresh = ChipState::new();
    assert_eq!(fresh.mem.read(FONT_ADDRESS), 0);
}

#[test]
fn load_empty_program_fails_and_leaves_memory() {
    let mut emu = Emulator::new();
    emu.state.mem.bytes[GAME_ADDRESS] = 0x42;
    let before = emu.state.mem.bytes;
    assert_eq!(load_game(&mut emu, &[]), Err(LoadError::Empty));
    assert_eq!(emu.state.mem.bytes, before);
    assert_eq!(LoadError::Empty.message(), "cannot load size 0 game");
}

#[test]
fn load_program_of_maximum_size_is_copied() {
    let mut emu = Emulator::new();
    let program: Vec<u8> = (0..MAX_GAME_SIZE).map(|k| (k * 7 % 251) as u8).collect();
    assert_eq!(load_game(&mut emu, &program), Ok(()));
    for k in 0..MAX_GAME_SIZE {
        assert_eq!(emu.state.mem.read(GAME_ADDRESS + k), program[k]);
    }
    assert_eq!(emu.state.mem.read(FONT_ADDRESS), 0xF0);
}

#[test]
fn load_oversized_program_fails() {
    let mut emu = Emulator::new();
    let program = vec![0xAAu8; MAX_GAME_SIZE + 1];
    assert_eq!(load_game(&mut emu, &program), Err(LoadError::TooLarge));
    assert_eq!(emu.state.mem.read(GAME_ADDRESS), 0);
    assert_eq!(LoadError::TooLarge.message(), "game size exceeds Chip8 maximum");
}

#[test]
fn unload_resets_the_emulator() {
    let mut emu = machine_with(&[0x00, 0xEE]);
    assert_eq!(run(&mut emu, &NO_KEYS).err(), Some(Fatal::StackUnderflow));
    unload_game(&mut emu);
    assert_eq!(emu.fatal, None);
    assert_eq!(emu.state.mem.read(GAME_ADDRESS), 0);
    assert_eq!(emu.state.mem.read(FONT_ADDRESS), 0xF0);
    assert_eq!(emu.state.pc, GAME_ADDRESS);
}

#[test]
fn frame_runs_sixteen_ticks_and_counts_timers_down() {
    // sixteen times "V0 += 1", then loop
    let mut program = Vec::new();
    for _ in 0..20 {
        program.extend_from_slice(&[0x70, 0x01]);
    }
    let mut emu = machine_with(&program);
    emu.state.dt = 5;
    emu.state.st = 1;
    let frame = run_with(&mut emu, &NO_KEYS, &[0u8; 16]).unwrap();
    assert_eq!(emu.state.v[0], 16);
    assert_eq!(emu.state.dt, 3);
    assert_eq!(emu.state.st, 0);
    assert_eq!(frame.audio.map(|a| a.len()), Some(AUDIO_SAMPLES_PER_FRAME));
    let frame = run_with(&mut emu, &NO_KEYS, &[0u8; 16]).unwrap();
    assert!(frame.audio.is_none());
    assert_eq!(emu.state.dt, 1);
    assert_eq!(frame.video.len(), NUM_PIXELS);
}

#[test]
fn frame_video_holds_the_screen() {
    // draw the glyph of 0 at (0, 0), then loop
    let mut emu = machine_with(&[0xF0, 0x29, 0xD0, 0x05, 0x12, 0x04]);
    let frame = run(&mut emu, &NO_KEYS).unwrap();
    assert_eq!(frame.video[0], 0xFFFF);
    assert_eq!(frame.video[3], 0xFFFF);
    assert_eq!(frame.video[4], 0);
    assert_eq!(frame.video[SCREEN_WIDTH + 1], 0);
    assert_eq!(frame.video[SCREEN_WIDTH], 0xFFFF);
}

#[test]
fn fatal_error_stops_the_emulator_for_good() {
    let mut emu = machine_with(&[0xFF, 0xFF]);
    let first = run(&mut emu, &NO_KEYS).err();
    assert_eq!(first, Some(Fatal::InvalidInstruction { opcode: 0xFFFF }));
    assert_eq!(emu.fatal, first);
    assert_eq!(run(&mut emu, &NO_KEYS).err(), first);
}

#[test]
fn audio_is_continuous_over_sixty_frames() {
    let mut emu = machine_with(&[0x12, 0x00]);
    emu.state.st = 255;
    let mut samples: Vec<i16> = Vec::new();
    for _ in 0..60 {
        let frame = run(&mut emu, &NO_KEYS).unwrap();
        samples.extend(frame.audio.unwrap());
    }
    assert_eq!(samples.len(), 60 * AUDIO_SAMPLES_PER_FRAME);
    for j in 0..samples.len() / 2 {
        let expected: i16 = if 2 * (j % 45) < 45 { 16383 } else { -16383 };
        assert_eq!(samples[2 * j], expected);
        assert_eq!(samples[2 * j + 1], expected);
    }
    assert_eq!(emu.audio_step, 60 * 600 % 18000);
}

#[test]
fn pixel_state_xor() {
    let mut p = PixelState::White;
    assert!(p.xor_mut_and_did_unset(PixelState::White));
    assert_eq!(p, PixelState::Black);
    assert!(!p.xor_mut_and_did_unset(PixelState::White));
    assert_eq!(p, PixelState::White);
    assert_eq!(PixelState::Black.xor(PixelState::Black), PixelState::Black);
    assert_eq!(PixelState::White.to_u16(), 0xFFFF);
    assert_eq!(PixelState::Black.to_u16(), 0);
}
