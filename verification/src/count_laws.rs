//! How much comes of how much: samples, frames and elements.
use crate::codec_blocks::padding_is_least;
use crate::codec_coder::{audio_error, encoder_frames};
use crate::codec_laws::{encoder_frames_divide, halving_divides, left_of};
use crate::conv::{bias_does, scale_does};
use crate::fast_run::FastArValues;
use crate::gguf::{element_count_of, product, FileView, TensorView};
use crate::numeric::{Calc, Op};
use crate::pcm::{digits, exponent, fraction, lemma_size, places, sample_of};
use crate::pipeline::{as_prompt_codes, fast_values_from, room_of};
use crate::single::single_nat;
use crate::slow_ar::{time_in_all, SlowArDecodeProfile};
use crate::weight_laws::holds;
use crate::waveform::{CodecReferenceAudioResult, CodecReferenceEncoderValues};
use vstd::arithmetic::power2::pow2;
use vstd::prelude::*;

verus! {

// ---------------------------------------------------------------------
// Frames
// ---------------------------------------------------------------------

/// A reference has one frame of codes for every 2048 samples, where a part of 2048 counts as a whole;
/// the encoder alone has one for every 512.
pub proof fn references_have_a_frame_for_2048_samples<T: Copy>(
    r: CodecReferenceAudioResult<T>,
    samples: nat,
    w: CodecReferenceEncoderValues<T>,
)
    requires
        r.counts(samples, w),
        audio_error(samples) is None,
        w.encoder.blocks@.len() >= 4,
        w.quantizer_downsample@.len() == 2,
    ensures
        r.input_samples == samples,
        r.padded_samples >= samples,
        samples > 0 ==> r.padded_samples < samples + 2048,
        samples == 0 ==> r.padded_samples == 2048,
        r.encoder_frames * 512 == r.padded_samples,
        r.quantizer_frames * 2048 == r.padded_samples,
        r.num_codebooks == w.rvq.residual_quantizers@.len() + 1,
        r.codes@.len() == r.num_codebooks * r.quantizer_frames,
        r.final_residual_l2@.len() == r.quantizer_frames,
{
    let padded = r.padded_samples as nat;
    if samples > 0 {
        padding_is_least(samples, 2048, 0);
    }
    encoder_frames_divide(padded, 4);
    assert(encoder_frames(padded, 4) == r.encoder_frames);
    let n = r.encoder_frames as nat;
    halving_divides(n, 2);
    assert(left_of(n, 0) == n);
    assert(left_of(n, 1) == n / 2);
    assert(left_of(n, 2) == (n / 2) / 2);
    assert(n % 4 == 0);
}

/// There is room for as many tokens as are asked for, or for 32768.
pub proof fn room_is_as_asked_for(n: usize)
    ensures
        room_of(Some(n)) == n,
        room_of(None) == 32768,
{
}

/// The codes of a prompt are those that were found, in their order.
pub proof fn prompt_codes_are_those_found(codes: Seq<i32>, i: int)
    requires
        0 <= i < codes.len(),
        codes[i] >= 0,
    ensures
        as_prompt_codes(codes).len() == codes.len(),
        as_prompt_codes(codes)[i] == codes[i],
{
}

/// The fast transformer has its own embeddings, norm and output, and four layers.
pub proof fn fast_values_are_their_tensors<T: Copy, F: Fn(Op, T, T, T) -> T>(
    v: FastArValues<T>,
    f: FileView,
    file: Seq<u8>,
    calc: Calc<T, F>,
)
    requires
        fast_values_from(v, f, file, calc),
    ensures
        holds(f, file, "fast_embeddings.weight"@, calc, v.embeddings@),
        holds(f, file, "fast_norm.weight"@, calc, v.norm@),
        holds(f, file, "fast_output.weight"@, calc, v.output@),
        v.layers@.len() == 4,
{
    reveal(holds);
}

// ---------------------------------------------------------------------
// Lists
// ---------------------------------------------------------------------

/// A scale multiplies every value by the factor at its place, and a bias adds to it what stands at its
/// place; both are as long as the values.
pub proof fn scales_and_biases_meet_their_place<T: Copy, F: Fn(Op, T, T, T) -> T>(
    values: Seq<T>,
    with: Seq<T>,
    calc: Calc<T, F>,
    out: Seq<T>,
    i: int,
)
    requires
        0 <= i < values.len(),
    ensures
        scale_does(values, with, calc, Ok(out)) ==> with.len() == values.len() && out.len()
            == values.len() && calc.gives(Op::Times, values[i], with[i], calc.zero, out[i]),
        bias_does(values, with, calc, Ok(out)) ==> with.len() == values.len() && out.len()
            == values.len() && calc.gives(Op::Plus, values[i], with[i], calc.zero, out[i]),
{
    let _ = out[i];
}

/// A tensor has as many elements as the product of its dimensions: one more dimension multiplies
/// them.
pub proof fn dimensions_multiply(dims: Seq<u64>, d: u64, t: TensorView)
    ensures
        product(Seq::<u64>::empty()) == 1,
        product(dims.push(d)) == product(dims) * d,
        element_count_of(t) matches Ok(n) ==> n == product(t.dimensions),
{
    assert(dims.push(d).drop_last() =~= dims);
    if let Ok(n) = element_count_of(t) {
        assert(t.dimensions.take(t.dimensions.len() as int) =~= t.dimensions);
    }
}

/// All the time that was spent is the sum of what was spent in every part.
pub proof fn times_add_up(p: SlowArDecodeProfile)
    ensures
        time_in_all(p) == p.linear + p.rms_norm + p.gqa_attention + p.rope + p.kv_write + p.swiglu
            + p.output_head,
{
}

// ---------------------------------------------------------------------
// Samples
// ---------------------------------------------------------------------

/// A value that is not a number has sample zero. A value of one or more has the largest sample, of
/// either sign. Any other value is multiplied by 32767, rounded as single precision rounds, and cut to
/// a whole number; its sign stays.
pub proof fn samples_are_cut_from_values(bits: u32)
    requires
        bits < 0x8000_0000,
    ensures
        exponent(bits) == 255 && fraction(bits) != 0 ==> sample_of(bits) == 0,
        exponent(bits) >= 127 && !(exponent(bits) == 255 && fraction(bits) != 0) ==> sample_of(bits)
            == 32767,
        exponent(bits) < 127 ==> sample_of(bits) == single_nat(digits(bits) * 32767) / pow2(
            places(bits),
        ),
        sample_of((bits + 0x8000_0000) as u32) == -sample_of(bits),
{
    let low = (bits + 0x8000_0000) as u32;
    assert((low / 0x80_0000) % 256 == (bits / 0x80_0000) % 256);
    assert(low % 0x80_0000 == bits % 0x80_0000);
    assert(exponent(low) == exponent(bits));
    assert(fraction(low) == fraction(bits));
    lemma_size(bits);
}

} // verus!
