//! Synthesis of the buzzer tone, one video frame of samples at a time.
use crate::constants::{
    AUDIO_FRAMES_PER_VIDEO_FRAME, AUDIO_SAMPLES_PER_FRAME, AUDIO_SAMPLE_RATE, BUZZER_AMPLITUDE,
    BUZZER_PERIOD,
};
use vstd::arithmetic::div_mod::{lemma_add_mod_noop, lemma_mod_mod};
use vstd::prelude::*;

verus! {

/// The buzzer's square wave at sample `step`: high for the first half of each period, low
/// for the rest.
pub open spec fn square_sample(step: int) -> i16 {
    if 2 * (step % BUZZER_PERIOD as int) < BUZZER_PERIOD {
        BUZZER_AMPLITUDE
    } else {
        (-BUZZER_AMPLITUDE) as i16
    }
}

/// One video frame of interleaved left/right samples, starting at sample `step`; both
/// channels carry the same tone.
pub open spec fn audio_batch(step: int) -> Seq<i16> {
    Seq::new(AUDIO_SAMPLES_PER_FRAME as nat, |j: int| square_sample(step + j / 2))
}

/// The phase accumulator after one more video frame of samples. It wraps at the sample rate,
/// which is a whole number of buzzer periods.
pub open spec fn next_audio_step(step: int) -> int {
    (step + AUDIO_FRAMES_PER_VIDEO_FRAME) % AUDIO_SAMPLE_RATE as int
}

/// The phase accumulator after `frames` video frames of samples.
pub open spec fn audio_step_after(step: int, frames: nat) -> int
    decreases frames,
{
    if frames == 0 {
        step
    } else {
        next_audio_step(audio_step_after(step, (frames - 1) as nat))
    }
}

/// The samples of `frames` consecutive video frames, starting with the phase at `step`.
pub open spec fn audio_frames(step: int, frames: nat) -> Seq<i16>
    decreases frames,
{
    if frames == 0 {
        Seq::empty()
    } else {
        audio_frames(step, (frames - 1) as nat) + audio_batch(
            audio_step_after(step, (frames - 1) as nat),
        )
    }
}

/// Writes one video frame of the buzzer tone, starting at sample `*step`, and advances the
/// phase accumulator by one frame.
pub fn generate_audio_sample_batch(step: &mut usize) -> (r: Vec<i16>)
    requires
        *old(step) < AUDIO_SAMPLE_RATE,
    ensures
        r@ == audio_batch(*old(step) as int),
        *final(step) == next_audio_step(*old(step) as int),
        *final(step) < AUDIO_SAMPLE_RATE,
{
    let start = *step;
    let mut buffer: Vec<i16> = Vec::with_capacity(AUDIO_SAMPLES_PER_FRAME);
    let mut k: usize = 0;
    while k < AUDIO_FRAMES_PER_VIDEO_FRAME
        invariant
            k <= AUDIO_FRAMES_PER_VIDEO_FRAME,
            start < AUDIO_SAMPLE_RATE,
            buffer@ == Seq::new(2 * k as nat, |j: int| square_sample(start + j / 2)),
        decreases AUDIO_FRAMES_PER_VIDEO_FRAME - k,
    {
        let t = start + k;
        let sample = if 2 * (t % BUZZER_PERIOD) < BUZZER_PERIOD {
            BUZZER_AMPLITUDE
        } else {
            -BUZZER_AMPLITUDE
        };
        buffer.push(sample);
        buffer.push(sample);
        assert(buffer@ =~= Seq::new(2 * (k + 1) as nat, |j: int| square_sample(start + j / 2)));
        k = k + 1;
    }
    *step = (start + AUDIO_FRAMES_PER_VIDEO_FRAME) % AUDIO_SAMPLE_RATE;
    buffer
}

/// The phase after `frames` frames is in range and agrees, modulo the buzzer period, with
/// the plain count of samples.
proof fn lemma_audio_step_after(step: int, frames: nat)
    requires
        0 <= step < AUDIO_SAMPLE_RATE,
    ensures
        0 <= audio_step_after(step, frames) < AUDIO_SAMPLE_RATE,
        audio_step_after(step, frames) % BUZZER_PERIOD as int == (step + frames
            * AUDIO_FRAMES_PER_VIDEO_FRAME) % BUZZER_PERIOD as int,
    decreases frames,
{
    if frames > 0 {
        let f = (frames - 1) as nat;
        lemma_audio_step_after(step, f);
        let prev = audio_step_after(step, f);
        let p = BUZZER_PERIOD as int;
        lemma_mod_mod(prev + 600, p, 400);
        assert(p * 400 == AUDIO_SAMPLE_RATE);
        lemma_add_mod_noop(prev, 600, p);
        lemma_add_mod_noop(step + f * 600, 600, p);
        assert(step + frames * 600 == step + f * 600 + 600);
    }
}

/// Audio stays phase-continuous across frame boundaries: `frames` consecutive batches hold
/// exactly `frames` times the samples of one frame, and together they are the unbroken tone
/// that starts at sample `step`.
pub proof fn lemma_audio_continuous(step: int, frames: nat)
    requires
        0 <= step < AUDIO_SAMPLE_RATE,
    ensures
        audio_frames(step, frames).len() == frames * AUDIO_SAMPLES_PER_FRAME,
        forall|j: int|
            0 <= j < frames * AUDIO_FRAMES_PER_VIDEO_FRAME ==> #[trigger] audio_frames(
                step,
                frames,
            )[2 * j] == square_sample(step + j) && audio_frames(step, frames)[2 * j + 1]
                == square_sample(step + j),
    decreases frames,
{
    if frames > 0 {
        let f = (frames - 1) as nat;
        lemma_audio_continuous(step, f);
        lemma_audio_step_after(step, f);
        let base = audio_step_after(step, f);
        let p = BUZZER_PERIOD as int;
        let all = audio_frames(step, frames);
        assert forall|j: int| 0 <= j < frames * AUDIO_FRAMES_PER_VIDEO_FRAME implies #[trigger] all[2
            * j] == square_sample(step + j) && all[2 * j + 1] == square_sample(step + j) by {
            if j >= f * AUDIO_FRAMES_PER_VIDEO_FRAME {
                let k = j - f * 600;
                assert(all[2 * j] == audio_batch(base)[2 * k]);
                assert(all[2 * j + 1] == audio_batch(base)[2 * k + 1]);
                lemma_add_mod_noop(base, k, p);
                lemma_add_mod_noop(step + f * 600, k, p);
                assert(step + j == step + f * 600 + k);
            }
        }
    }
}

} // verus!
