//! Sound on one channel from files.
use crate::attention::{fold_all, folded};
use crate::error::{ErrorView, InferError};
use crate::numeric::{row, row_of, Calc, Op};
use crate::pcm::{is_close, is_within_one, sample_of, samples_are_close, samples_of};
use crate::wav::{
    audio_of, reading_gives_back_what_was_written, sample_count, wav_audio_from_bytes, wav_file,
    SamplesView, WavSamples,
};
use crate::waveform::{
    encode_reference_audio, frames_of_sound, reference_fails, CodecReferenceAudioResult,
    CodecReferenceEncoderValues,
};
use vstd::prelude::*;
use vstd::slice::slice_to_vec;

verus! {

/// The operation that turns sample `i` into a number between minus one and one.
pub open spec fn sample_op(s: SamplesView, i: int) -> Op {
    match s {
        SamplesView::Unsigned8(v) => Op::Sample((v[i] - 128) as i32, 128),
        SamplesView::Signed16(v) => Op::Sample(v[i] as i32, 32768),
        SamplesView::Signed24(v) => Op::Sample(v[i], 8388608),
        SamplesView::Signed32(v) => Op::Sample(v[i], 0x8000_0000),
        SamplesView::Float32(v) => Op::Single(v[i]),
    }
}

/// Whether these are the samples as values.
pub open spec fn are_sample_values<T: Copy, F: Fn(Op, T, T, T) -> T>(
    s: SamplesView,
    calc: Calc<T, F>,
    values: Seq<T>,
) -> bool {
    &&& values.len() == sample_count(s)
    &&& forall|i: int|
        0 <= i < values.len() ==> calc.gives(
            sample_op(s, i),
            calc.zero,
            calc.zero,
            calc.zero,
            #[trigger] values[i],
        )
}

fn op_at(s: &WavSamples, i: usize) -> (r: Op)
    requires
        i < sample_count(s@),
    ensures
        r == sample_op(s@, i as int),
{
    match s {
        WavSamples::Unsigned8(v) => Op::Sample(v[i] as i32 - 128, 128),
        WavSamples::Signed16(v) => Op::Sample(v[i] as i32, 32768),
        WavSamples::Signed24(v) => Op::Sample(v[i], 8388608),
        WavSamples::Signed32(v) => Op::Sample(v[i], 0x8000_0000),
        WavSamples::Float32(v) => Op::Single(v[i]),
    }
}

fn count_of(s: &WavSamples) -> (r: usize)
    ensures
        r == sample_count(s@),
{
    match s {
        WavSamples::Unsigned8(v) => v.len(),
        WavSamples::Signed16(v) => v.len(),
        WavSamples::Signed24(v) => v.len(),
        WavSamples::Signed32(v) => v.len(),
        WavSamples::Float32(v) => v.len(),
    }
}

fn sample_values<T: Copy, F: Fn(Op, T, T, T) -> T>(s: &WavSamples, calc: &Calc<T, F>) -> (r: Vec<T>)
    requires
        calc.works(),
    ensures
        are_sample_values(s@, *calc, r@),
{
    let count: usize = count_of(s);
    let mut out: Vec<T> = Vec::new();
    let mut i: usize = 0;
    while i < count
        invariant
            i <= count,
            count == sample_count(s@),
            calc.works(),
            out@.len() == i,
            forall|k: int|
                0 <= k < i ==> calc.gives(
                    sample_op(s@, k),
                    calc.zero,
                    calc.zero,
                    calc.zero,
                    #[trigger] out@[k],
                ),
        decreases count - i,
    {
        let v: T = calc.constant(op_at(s, i));
        out.push(v);
        i = i + 1;
    }
    out
}

/// Whether a value is the mean of the channels of a frame.
pub open spec fn is_mean<T: Copy, F: Fn(Op, T, T, T) -> T>(
    frame: Seq<T>,
    channels: usize,
    calc: Calc<T, F>,
    v: T,
) -> bool {
    exists|sums: Seq<T>|
        {
            &&& #[trigger] folded(sums, frame, calc.zero, Op::Plus, calc)
            &&& sums.len() == frame.len() + 1
            &&& calc.gives(Op::OverCount(channels), sums.last(), calc.zero, calc.zero, v)
        }
}

/// Whether sound on one channel comes from samples: the samples themselves, or the mean of each
/// frame.
pub open spec fn is_mono<T: Copy, F: Fn(Op, T, T, T) -> T>(
    channels: u16,
    s: SamplesView,
    calc: Calc<T, F>,
    out: Seq<T>,
) -> bool {
    exists|values: Seq<T>|
        #[trigger] are_sample_values(s, calc, values) && if channels == 1 {
            out == values
        } else {
            &&& out.len() * channels == values.len()
            &&& forall|i: int|
                0 <= i < out.len() ==> is_mean(
                    row(values, i, channels as int),
                    channels as usize,
                    calc,
                    #[trigger] out[i],
                )
        }
}

/// The sound of a file with the expected sample rate, mixed to one channel.
pub fn wav_mono_f32_from_bytes<T: Copy, F: Fn(Op, T, T, T) -> T>(
    bytes: &[u8],
    expected_sample_rate: u32,
    calc: &Calc<T, F>,
) -> (r: Result<Vec<T>, InferError>)
    requires
        calc.works(),
    ensures
        match r {
            Ok(v) => audio_of(bytes@, expected_sample_rate) matches Ok((channels, samples))
                && is_mono(channels, samples, *calc, v@),
            Err(e) => audio_of(bytes@, expected_sample_rate) == Err::<
                (u16, SamplesView),
                ErrorView,
            >(e@),
        },
{
    let audio = match wav_audio_from_bytes(bytes, expected_sample_rate) {
        Err(e) => {
            return Err(e);
        },
        Ok(a) => a,
    };
    let values = sample_values(&audio.samples, calc);
    if audio.channels == 1 {
        return Ok(values);
    }
    let channels: usize = audio.channels as usize;
    let size: usize = values.len();
    let frames: usize = size / channels;
    proof {
        vstd::arithmetic::div_mod::lemma_fundamental_div_mod(size as int, channels as int);
        assert(channels * frames == frames * channels) by (nonlinear_arith);
        assert(size == frames * channels);
    }
    let mut out: Vec<T> = Vec::new();
    let mut i: usize = 0;
    while i < frames
        invariant
            i <= frames,
            calc.works(),
            values@.len() == frames * channels,
            values@.len() == size,
            out@.len() == i,
            forall|k: int|
                0 <= k < i ==> is_mean(
                    row(values@, k, channels as int),
                    channels,
                    *calc,
                    #[trigger] out@[k],
                ),
        decreases frames - i,
    {
        let frame = slice_to_vec(row_of(values.as_slice(), i, channels, Ghost(frames as int)));
        let total = fold_all(&frame, calc.zero, Op::Plus, calc);
        let v: T = calc.one(Op::OverCount(channels), total.0);
        proof {
            let sums = total.1@;
            assert(folded(sums, frame@, calc.zero, Op::Plus, *calc));
            assert(is_mean(row(values@, i as int, channels as int), channels, *calc, v));
        }
        out.push(v);
        i = i + 1;
    }
    assert(are_sample_values(audio.samples@, *calc, values@));
    Ok(out)
}

/// Sound that is written to a file and read back is what it was, as closely as samples of 16 bits
/// tell values: as many values come back, each a sample over 32768 that differs from the value that
/// was written by no more than two parts in 32768. Where another sample rate is expected, the file is
/// refused.
pub proof fn sound_comes_back_close<T: Copy, F: Fn(Op, T, T, T) -> T>(
    values: Seq<u32>,
    sample_rate: u32,
    calc: Calc<T, F>,
    read: Seq<T>,
)
    requires
        values.len() > 0,
        44 + 2 * values.len() <= u32::MAX,
        sample_rate * 2 <= u32::MAX,
        forall|i: int| 0 <= i < values.len() ==> is_within_one(#[trigger] values[i]),
        audio_of(wav_file(samples_of(values), sample_rate), sample_rate) matches Ok(
            (channels, found),
        ) ==> is_mono(channels, found, calc, read),
    ensures
        audio_of(wav_file(samples_of(values), sample_rate), sample_rate) is Ok,
        forall|other: u32|
            other != sample_rate ==> (#[trigger] audio_of(
                wav_file(samples_of(values), sample_rate),
                other,
            )) is Err,
        read.len() == values.len(),
        forall|i: int|
            0 <= i < values.len() ==> is_close(sample_of(values[i]), values[i]) && calc.gives(
                Op::Sample(sample_of(values[i]) as i32, 32768),
                calc.zero,
                calc.zero,
                calc.zero,
                #[trigger] read[i],
            ),
{
    let samples = samples_of(values);
    lemma_samples_come_back(samples, sample_rate, calc, read);
    assert(samples.len() == values.len());
    assert forall|i: int| 0 <= i < values.len() implies is_close(
        sample_of(#[trigger] values[i]),
        values[i],
    ) by {
        samples_are_close(values[i]);
    }
    assert(forall|i: int|
        0 <= i < values.len() ==> #[trigger] samples[i] == sample_of(values[i]));
}

proof fn lemma_samples_come_back<T: Copy, F: Fn(Op, T, T, T) -> T>(
    samples: Seq<i16>,
    sample_rate: u32,
    calc: Calc<T, F>,
    read: Seq<T>,
)
    requires
        samples.len() > 0,
        44 + 2 * samples.len() <= u32::MAX,
        sample_rate * 2 <= u32::MAX,
        audio_of(wav_file(samples, sample_rate), sample_rate) matches Ok((channels, found))
            ==> is_mono(channels, found, calc, read),
    ensures
        audio_of(wav_file(samples, sample_rate), sample_rate) is Ok,
        forall|other: u32|
            other != sample_rate ==> (#[trigger] audio_of(
                wav_file(samples, sample_rate),
                other,
            )) is Err,
        read.len() == samples.len(),
        forall|i: int|
            0 <= i < samples.len() ==> calc.gives(
                Op::Sample(samples[i] as i32, 32768),
                calc.zero,
                calc.zero,
                calc.zero,
                #[trigger] read[i],
            ),
{
    reading_gives_back_what_was_written(samples, sample_rate);
    let found = SamplesView::Signed16(samples);
    assert(is_mono(1u16, found, calc, read));
    assert(are_sample_values(found, calc, read));
    assert forall|i: int| 0 <= i < samples.len() implies calc.gives(
        Op::Sample(samples[i] as i32, 32768),
        calc.zero,
        calc.zero,
        calc.zero,
        #[trigger] read[i],
    ) by {
        assert(calc.gives(sample_op(found, i), calc.zero, calc.zero, calc.zero, read[i]));
    }
}

/// The codes of the sound in a file.
pub fn encode_reference_wav<T: Copy, F: Fn(Op, T, T, T) -> T, G: Fn(T, T) -> bool>(
    bytes: &[u8],
    weights: &CodecReferenceEncoderValues<T>,
    calc: &Calc<T, F>,
    exceeds: &G,
) -> (r: Result<CodecReferenceAudioResult<T>, InferError>)
    requires
        calc.works(),
        forall|a: T, b: T| call_requires(*exceeds, (a, b)),
        weights.usable(),
    ensures
        match audio_of(bytes@, 44100) {
            Err(e) => r matches Err(found) && found@ == e,
            Ok((channels, samples)) => exists|audio: Seq<T>|
                #[trigger] is_mono(channels, samples, *calc, audio) && match r {
                    Ok(v) => v.counts(audio.len(), *weights) && exists|latents: Seq<T>|
                        #[trigger] frames_of_sound(
                            audio,
                            *weights,
                            *calc,
                            v.encoder_frames,
                            Ok(latents),
                        ) && v.encodes(latents, *weights, *calc, *exceeds),
                    Err(e) => reference_fails(audio, *weights, *calc, e@),
                },
        },
{
    let audio = match wav_mono_f32_from_bytes(bytes, 44100, calc) {
        Err(e) => {
            return Err(e);
        },
        Ok(v) => v,
    };
    encode_reference_audio(audio.as_slice(), weights, calc, exceeds)
}

} // verus!
