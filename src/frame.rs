//! The frame driver: program loading and the per-frame orchestration of interpreter ticks,
//! timers, audio and video.
use crate::audio::{audio_batch, generate_audio_sample_batch, next_audio_step};
use crate::constants::{
    AUDIO_SAMPLE_RATE, GAME_ADDRESS, MAX_GAME_SIZE, TICKS_PER_FRAME, TICKS_PER_TIMER_CYCLE,
    TIMER_CYCLES_PER_FRAME,
};
use crate::screen::screen_pixels;
use crate::state::{init, initial_model, random_byte, step_spec, ChipModel, ChipState, Fatal};
use vstd::prelude::*;

verus! {

/// Why a program image was refused.
#[derive(Clone, Copy, PartialEq, Eq, Debug, Structural)]
pub enum LoadError {
    /// The image is empty.
    Empty,
    /// The image is larger than the program region.
    TooLarge,
}

impl LoadError {
    /// A description of the error.
    pub fn message(&self) -> &'static str {
        match self {
            LoadError::Empty => "cannot load size 0 game",
            LoadError::TooLarge => "game size exceeds Chip8 maximum",
        }
    }
}

/// What one frame produces for the host.
pub struct Frame {
    /// One frame of interleaved left/right samples, present while the sound timer runs
    pub audio: Option<Vec<i16>>,
    /// The display as 16-bit colours, row by row
    pub video: Vec<u16>,
}

/// An emulator instance: the machine, the audio phase accumulator, and the fatal condition
/// that stopped it, if any. Once stopped it stays stopped.
pub struct Emulator {
    pub state: ChipState,
    pub audio_step: usize,
    pub fatal: Option<Fatal>,
}

impl Emulator {
    pub open spec fn wf(&self) -> bool {
        self.state.wf() && self.audio_step < AUDIO_SAMPLE_RATE
    }

    /// A newly initialized emulator.
    pub fn new() -> (r: Emulator)
        ensures
            r.wf(),
            r.state@ == initial_model(),
            r.audio_step == 0,
            r.fatal is None,
    {
        Emulator { state: init(), audio_step: 0, fatal: None }
    }
}

/// Memory with `data` copied into the program region.
pub open spec fn loaded_memory(mem: Seq<u8>, data: Seq<u8>) -> Seq<u8> {
    Seq::new(
        mem.len(),
        |a: int|
            if GAME_ADDRESS <= a < GAME_ADDRESS + data.len() {
                data[a - GAME_ADDRESS]
            } else {
                mem[a]
            },
    )
}

/// Copies a program image into the program region.
///
/// An empty image and one larger than `MAX_GAME_SIZE` are refused, and the emulator is left
/// unchanged; otherwise the image is copied byte for byte to `GAME_ADDRESS` and nothing else
/// changes.
pub fn load_game(emu: &mut Emulator, game_data: &[u8]) -> (r: Result<(), LoadError>)
    requires
        old(emu).wf(),
    ensures
        final(emu).wf(),
        r is Ok <==> 0 < game_data@.len() <= MAX_GAME_SIZE,
        r == Err::<(), LoadError>(LoadError::Empty) <==> game_data@.len() == 0,
        r == Err::<(), LoadError>(LoadError::TooLarge) <==> game_data@.len() > MAX_GAME_SIZE,
        r is Err ==> *final(emu) == *old(emu),
        r is Ok ==> final(emu).state@ == (ChipModel {
            mem: loaded_memory(old(emu).state@.mem, game_data@),
            ..old(emu).state@
        }) && final(emu).audio_step == old(emu).audio_step && final(emu).fatal == old(
            emu,
        ).fatal,
{
    let len = game_data.len();
    if len == 0 {
        return Err(LoadError::Empty);
    }
    if len > MAX_GAME_SIZE {
        return Err(LoadError::TooLarge);
    }
    let ghost mem0 = emu.state.mem@;
    let mut k: usize = 0;
    while k < len
        invariant
            k <= len,
            len == game_data@.len(),
            len <= MAX_GAME_SIZE,
            emu.state.mem@ == Seq::new(
                mem0.len(),
                |a: int|
                    if GAME_ADDRESS <= a < GAME_ADDRESS + k {
                        game_data@[a - GAME_ADDRESS]
                    } else {
                        mem0[a]
                    },
            ),
            mem0 == old(emu).state@.mem,
            emu.state.screen == old(emu).state.screen,
            emu.state.stack == old(emu).state.stack,
            emu.state.v == old(emu).state.v,
            emu.state.dt == old(emu).state.dt,
            emu.state.st == old(emu).state.st,
            emu.state.i == old(emu).state.i,
            emu.state.pc == old(emu).state.pc,
            emu.audio_step == old(emu).audio_step,
            emu.fatal == old(emu).fatal,
        decreases len - k,
    {
        emu.state.mem.bytes[GAME_ADDRESS + k] = game_data[k];
        assert(emu.state.mem@ =~= Seq::new(
            mem0.len(),
            |a: int|
                if GAME_ADDRESS <= a < GAME_ADDRESS + k + 1 {
                    game_data@[a - GAME_ADDRESS]
                } else {
                    mem0[a]
                },
        ));
        k = k + 1;
    }
    proof {
        assert(emu.state.mem@ =~= loaded_memory(mem0, game_data@));
    }
    Ok(())
}

/// Returns the emulator to its newly initialized state: memory is cleared and the font
/// reloaded, registers, timers, stack, screen and audio phase are reset, and a fatal
/// condition is forgotten.
pub fn unload_game(emu: &mut Emulator)
    ensures
        final(emu).wf(),
        final(emu).state@ == initial_model(),
        final(emu).audio_step == 0,
        final(emu).fatal is None,
{
    *emu = Emulator::new();
}

/// Both timers counted down by one, stopping at zero.
pub open spec fn dec_timers(s: ChipModel) -> ChipModel {
    ChipModel {
        dt: (if s.dt > 0 { s.dt - 1 } else { 0 }) as u8,
        st: (if s.st > 0 { s.st - 1 } else { 0 }) as u8,
        ..s
    }
}

/// `t` interpreter ticks from `s`, the k-th of them drawing `rs[base + k]`.
pub open spec fn cycle_ticks(s: ChipModel, keys: Seq<bool>, rs: Seq<u8>, base: int, t: nat) -> Result<
    ChipModel,
    Fatal,
>
    decreases t,
{
    if t == 0 {
        Ok(s)
    } else {
        match cycle_ticks(s, keys, rs, base, (t - 1) as nat) {
            Ok(s1) => step_spec(s1, keys, rs[base + t - 1]),
            Err(e) => Err(e),
        }
    }
}

/// `c` timer cycles from `s`: each runs `TICKS_PER_TIMER_CYCLE` ticks, then counts the
/// timers down.
pub open spec fn run_cycles(s: ChipModel, keys: Seq<bool>, rs: Seq<u8>, c: nat) -> Result<
    ChipModel,
    Fatal,
>
    decreases c,
{
    if c == 0 {
        Ok(s)
    } else {
        match run_cycles(s, keys, rs, (c - 1) as nat) {
            Ok(s1) => match cycle_ticks(
                s1,
                keys,
                rs,
                (c - 1) * TICKS_PER_TIMER_CYCLE,
                TICKS_PER_TIMER_CYCLE as nat,
            ) {
                Ok(s2) => Ok(dec_timers(s2)),
                Err(e) => Err(e),
            },
            Err(e) => Err(e),
        }
    }
}

/// The machine after one frame, or the fatal condition met during it.
pub open spec fn frame_spec(s: ChipModel, keys: Seq<bool>, rs: Seq<u8>) -> Result<ChipModel, Fatal> {
    run_cycles(s, keys, rs, TIMER_CYCLES_PER_FRAME as nat)
}

/// `r`, `after` and the audio phase are what one frame of `before` gives, with key states
/// `keys` and random bytes `rs`.
pub open spec fn frame_outcome(
    r: Result<Frame, Fatal>,
    before: Emulator,
    after: Emulator,
    keys: Seq<bool>,
    rs: Seq<u8>,
) -> bool {
    match before.fatal {
        Some(e) => r == Err::<Frame, Fatal>(e) && after == before,
        None => {
            &&& after.audio_step == (if before.state.st > 0 {
                next_audio_step(before.audio_step as int)
            } else {
                before.audio_step as int
            })
            &&& match frame_spec(before.state@, keys, rs) {
                Ok(s) => {
                    &&& r is Ok
                    &&& after.state@ == s
                    &&& after.fatal is None
                    &&& r->Ok_0.video@ == screen_pixels(s.screen)
                    &&& before.state.st > 0 ==> (r->Ok_0.audio matches Some(a) && a@ == audio_batch(
                        before.audio_step as int,
                    ))
                    &&& before.state.st == 0 ==> r->Ok_0.audio is None
                },
                Err(e) => r == Err::<Frame, Fatal>(e) && after.fatal == Some(e),
            }
        },
    }
}

proof fn lemma_cycle_ticks_err(s: ChipModel, keys: Seq<bool>, rs: Seq<u8>, base: int, t: nat, u: nat, e: Fatal)
    requires
        t <= u,
        cycle_ticks(s, keys, rs, base, t) == Err::<ChipModel, Fatal>(e),
    ensures
        cycle_ticks(s, keys, rs, base, u) == Err::<ChipModel, Fatal>(e),
    decreases u - t,
{
    if t < u {
        lemma_cycle_ticks_err(s, keys, rs, base, t, (u - 1) as nat, e);
    }
}

proof fn lemma_run_cycles_err(s: ChipModel, keys: Seq<bool>, rs: Seq<u8>, c: nat, d: nat, e: Fatal)
    requires
        c <= d,
        run_cycles(s, keys, rs, c) == Err::<ChipModel, Fatal>(e),
    ensures
        run_cycles(s, keys, rs, d) == Err::<ChipModel, Fatal>(e),
    decreases d - c,
{
    if c < d {
        lemma_run_cycles_err(s, keys, rs, c, (d - 1) as nat, e);
    }
}

/// Runs one frame with the given key states and one random byte per interpreter tick.
///
/// While the sound timer is nonzero a frame of buzzer samples is produced first. Then each
/// of `TIMER_CYCLES_PER_FRAME` timer cycles runs `TICKS_PER_TIMER_CYCLE` ticks and counts
/// both timers down by one, stopping at zero. Last, the display is captured. A fatal
/// condition stops the frame and the emulator for good.
pub fn run_with(emu: &mut Emulator, keys: &[bool; 16], random: &[u8]) -> (r: Result<Frame, Fatal>)
    requires
        old(emu).wf(),
        random@.len() == TICKS_PER_FRAME,
    ensures
        final(emu).wf(),
        frame_outcome(r, *old(emu), *final(emu), keys@, random@),
{
    if let Some(e) = emu.fatal {
        return Err(e);
    }
    let audio = if emu.state.st > 0 {
        Some(generate_audio_sample_batch(&mut emu.audio_step))
    } else {
        None
    };
    let ghost s0 = emu.state@;
    let mut c: usize = 0;
    while c < TIMER_CYCLES_PER_FRAME
        invariant
            c <= TIMER_CYCLES_PER_FRAME,
            random@.len() == TICKS_PER_FRAME,
            emu.wf(),
            emu.fatal is None,
            s0 == old(emu).state@,
            old(emu).fatal is None,
            run_cycles(s0, keys@, random@, c as nat) == Ok::<ChipModel, Fatal>(emu.state@),
            emu.audio_step == (if old(emu).state.st > 0 {
                next_audio_step(old(emu).audio_step as int)
            } else {
                old(emu).audio_step as int
            }),
        decreases TIMER_CYCLES_PER_FRAME - c,
    {
        let ghost cs = emu.state@;
        let mut t: usize = 0;
        while t < TICKS_PER_TIMER_CYCLE
            invariant
                t <= TICKS_PER_TIMER_CYCLE,
                c < TIMER_CYCLES_PER_FRAME,
                random@.len() == TICKS_PER_FRAME,
                emu.wf(),
                emu.fatal is None,
                s0 == old(emu).state@,
            old(emu).fatal is None,
                run_cycles(s0, keys@, random@, c as nat) == Ok::<ChipModel, Fatal>(cs),
                cycle_ticks(cs, keys@, random@, c * TICKS_PER_TIMER_CYCLE, t as nat) == Ok::<
                    ChipModel,
                    Fatal,
                >(emu.state@),
                emu.audio_step == (if old(emu).state.st > 0 {
                    next_audio_step(old(emu).audio_step as int)
                } else {
                    old(emu).audio_step as int
                }),
            decreases TICKS_PER_TIMER_CYCLE - t,
        {
            let k = c * TICKS_PER_TIMER_CYCLE + t;
            match emu.state.step(keys, random[k]) {
                Ok(()) => {},
                Err(e) => {
                    proof {
                        let base = c * TICKS_PER_TIMER_CYCLE;
                        assert(cycle_ticks(cs, keys@, random@, base, (t + 1) as nat) == Err::<
                            ChipModel,
                            Fatal,
                        >(e));
                        lemma_cycle_ticks_err(
                            cs,
                            keys@,
                            random@,
                            base,
                            (t + 1) as nat,
                            TICKS_PER_TIMER_CYCLE as nat,
                            e,
                        );
                        assert(run_cycles(s0, keys@, random@, (c + 1) as nat) == Err::<
                            ChipModel,
                            Fatal,
                        >(e));
                        lemma_run_cycles_err(
                            s0,
                            keys@,
                            random@,
                            (c + 1) as nat,
                            TIMER_CYCLES_PER_FRAME as nat,
                            e,
                        );
                    }
                    emu.fatal = Some(e);
                    return Err(e);
                },
            }
            t = t + 1;
        }
        emu.state.dt = if emu.state.dt > 0 {
            emu.state.dt - 1
        } else {
            0
        };
        emu.state.st = if emu.state.st > 0 {
            emu.state.st - 1
        } else {
            0
        };
        c = c + 1;
    }
    let video = emu.state.screen.to_pixels();
    Ok(Frame { audio, video })
}

/// Runs one frame with the given key states, drawing a fresh random byte for each
/// interpreter tick. The outcome is that of [`run_with`] for some sequence of random bytes.
pub fn run(emu: &mut Emulator, keys: &[bool; 16]) -> (r: Result<Frame, Fatal>)
    requires
        old(emu).wf(),
    ensures
        final(emu).wf(),
        exists|rs: Seq<u8>|
            rs.len() == TICKS_PER_FRAME && #[trigger] frame_outcome(
                r,
                *old(emu),
                *final(emu),
                keys@,
                rs,
            ),
{
    let mut random: Vec<u8> = Vec::with_capacity(TICKS_PER_FRAME);
    let mut k: usize = 0;
    while k < TICKS_PER_FRAME
        invariant
            k <= TICKS_PER_FRAME,
            random@.len() == k,
        decreases TICKS_PER_FRAME - k,
    {
        random.push(random_byte());
        k = k + 1;
    }
    run_with(emu, keys, random.as_slice())
}

} // verus!
