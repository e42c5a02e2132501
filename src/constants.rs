use vstd::prelude::*;

verus! {

/// Total Chip-8 memory available
pub const TOTAL_MEMORY: usize = 0x1000;

/// Address in Chip-8 memory at which hex font data is loaded. This is basically arbitrary
/// but should be sufficiently below GAME_ADDRESS.
pub const FONT_ADDRESS: usize = 0x100;

/// Size in bytes of the hex font (16 glyphs of 5 bytes each)
pub const FONT_SIZE: usize = 80;

/// Address in Chip-8 memory at which games are loaded
pub const GAME_ADDRESS: usize = 0x200;

/// Maximum size of Chip-8 game (TOTAL_MEMORY - GAME_ADDRESS)
pub const MAX_GAME_SIZE: usize = 0xE00;

/// Maximum depth of the call stack
pub const STACK_DEPTH: usize = 16;

/// Screen width
pub const SCREEN_WIDTH: usize = 64;

/// Screen height
pub const SCREEN_HEIGHT: usize = 32;

/// Number of pixels (SCREEN_WIDTH * SCREEN_HEIGHT)
pub const NUM_PIXELS: usize = 2048;

/// Maximum number of rows in a sprite
pub const MAX_SPRITE_ROWS: usize = 15;

/// Video frame rate
pub const FRAME_RATE: usize = 30;

/// Chip-8 timer cycle rate (this is always 60 Hz)
pub const TIMER_CYCLE_RATE: usize = 60;

/// Interpreter ticks per second
pub const TICK_RATE: usize = 500;

/// Interpreter ticks per timer cycle (TICK_RATE / TIMER_CYCLE_RATE, rounded down: the tick
/// rate is not a multiple of the timer rate, so the effective rate is a close approximation)
pub const TICKS_PER_TIMER_CYCLE: usize = 8;

/// Chip-8 timer cycles per frame (TIMER_CYCLE_RATE / FRAME_RATE)
pub const TIMER_CYCLES_PER_FRAME: usize = 2;

/// Interpreter ticks per video frame
pub const TICKS_PER_FRAME: usize = 16;

/// Audio samples per second
pub const AUDIO_SAMPLE_RATE: usize = 18000;

/// Audio frames per video frame (AUDIO_SAMPLE_RATE / FRAME_RATE)
pub const AUDIO_FRAMES_PER_VIDEO_FRAME: usize = 600;

/// Interleaved left/right samples per video frame
pub const AUDIO_SAMPLES_PER_FRAME: usize = 1200;

/// Buzzer frequency
pub const BUZZER_FREQ: usize = 400;

/// Audio samples in one period of the buzzer tone (AUDIO_SAMPLE_RATE / BUZZER_FREQ)
pub const BUZZER_PERIOD: usize = 45;

/// Amplitude of the buzzer tone (half of the largest 16-bit sample)
pub const BUZZER_AMPLITUDE: i16 = 16383;

/// The derived constants above agree with the rates they are computed from, and the rates
/// divide evenly where the frame driver relies on it.
pub proof fn lemma_rates_consistent()
    ensures
        MAX_GAME_SIZE == TOTAL_MEMORY - GAME_ADDRESS,
        FONT_ADDRESS + FONT_SIZE <= GAME_ADDRESS,
        NUM_PIXELS == SCREEN_WIDTH * SCREEN_HEIGHT,
        TIMER_CYCLE_RATE % FRAME_RATE == 0,
        TIMER_CYCLES_PER_FRAME == TIMER_CYCLE_RATE / FRAME_RATE,
        TICKS_PER_TIMER_CYCLE == TICK_RATE / TIMER_CYCLE_RATE,
        TICKS_PER_FRAME == TICKS_PER_TIMER_CYCLE * TIMER_CYCLES_PER_FRAME,
        AUDIO_SAMPLE_RATE % FRAME_RATE == 0,
        AUDIO_SAMPLE_RATE % BUZZER_FREQ == 0,
        AUDIO_FRAMES_PER_VIDEO_FRAME == AUDIO_SAMPLE_RATE / FRAME_RATE,
        AUDIO_SAMPLES_PER_FRAME == 2 * AUDIO_FRAMES_PER_VIDEO_FRAME,
        BUZZER_PERIOD == AUDIO_SAMPLE_RATE / BUZZER_FREQ,
        2 * (BUZZER_AMPLITUDE as int) + 1 == i16::MAX,
{
}

} // verus!
