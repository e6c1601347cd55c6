//! From codes to sound, and from sound to codes.
use crate::codec_blocks::{
    block_output_channels, encoder_block_output_channels, decoder_channels, encoder_channels,
};
use crate::codec_coder::{
    channels_before, encoder_does, encoder_frames, encoder_rate, entry_conv,
    forward_codec_encoder_frontend, used_blocks,
};
use crate::codec_coder_weights::{
    encoder_error, CodecDecoderValues, CodecEncoderF16Weights, CodecEncoderValues,
};
use crate::codec_decode::{
    decoder_channels_before, decoder_entry_conv, decoder_rate, forward_codec_decoder,
    used_decoder_blocks,
};
use crate::codec_modules::{
    doubled, encode_does, forward_codec_quantizer_encode_stage, halved, latent_steps,
    rvq_decode_latents,
};
use crate::codec_names::CODEC_SAMPLE_RATE;
use crate::codec_registry::{codec_error, CodecTensorRegistry};
use crate::codec_weights::{
    downsample_error, module_error, quantizers_error, CodecDownsampleF16Weights, CodecF16Weights,
    CodecModuleValues, CodecPreModuleF16Weights, CodecResidualUnitValues, CodecStageValues,
};
use crate::convolve::Conv1dFrameMajorSpec;
use crate::error::{ErrorView, InferError};
use crate::flow::flows;
use crate::gguf::{FileView, GgufFile, tensors_inside};
use crate::numeric::{row, Calc, Op};
use crate::rvq_codes::{frame_codes, rvq_encode_latents_nearest, rvq_lookup_codes, CodecValues};
use crate::sizes::or_else;
use crate::pcm::samples_of;
use crate::wav::{pcm_to_wav, wav_file};
use vstd::prelude::*;

verus! {

// ---------------------------------------------------------------------
// Sound from codes
// ---------------------------------------------------------------------

/// Sound that codes were turned into.
#[derive(Debug)]
pub struct CodecWaveformResult<T> {
    pub sample_rate: u32,
    pub input_frames: u32,
    pub latent_frames: u32,
    pub num_samples: usize,
    pub samples: Vec<T>,
}

/// Whether frames of values are those that codes stand for.
pub open spec fn are_latents_of<T: Copy, F: Fn(Op, T, T, T) -> T>(
    codes: Seq<i32>,
    n_frames: u32,
    rvq: CodecValues<T>,
    calc: Calc<T, F>,
    latents: Seq<T>,
) -> bool {
    &&& latents.len() == n_frames * 1024
    &&& forall|f: int|
        0 <= f < n_frames ==> rvq.is_frame_of(
            codes,
            n_frames as nat,
            f,
            calc,
            #[trigger] row(latents, f, 1024),
        )
}

/// What is done to frames of values: a transformer, a higher frame rate, and the decoder.
pub open spec fn sound_does<T: Copy, F: Fn(Op, T, T, T) -> T>(
    latents: Seq<T>,
    n_frames: u32,
    post: CodecModuleValues<T>,
    stages: Seq<CodecStageValues<T>>,
    decoder: CodecDecoderValues<T>,
    calc: Calc<T, F>,
    r: Result<Seq<T>, ErrorView>,
) -> bool {
    exists|m: Result<Seq<T>, ErrorView>|
        #[trigger] flows(latent_steps(n_frames, post, stages, calc), latents, m) && match m {
            Err(e) => r == Err::<Seq<T>, ErrorView>(e),
            Ok(hidden) => decoder.does(
                hidden,
                doubled(n_frames as nat, stages.len()),
                1024,
                calc,
                r,
            ),
        }
}

/// What is done to codes: the frames they stand for become sound.
pub open spec fn waveform_does<T: Copy, F: Fn(Op, T, T, T) -> T>(
    codes: Seq<i32>,
    num_codebooks: u32,
    n_frames: u32,
    rvq: CodecValues<T>,
    post: CodecModuleValues<T>,
    stages: Seq<CodecStageValues<T>>,
    decoder: CodecDecoderValues<T>,
    calc: Calc<T, F>,
    r: Result<Seq<T>, ErrorView>,
) -> bool {
    match rvq.codes_error(codes, num_codebooks, n_frames) {
        Some(e) => r == Err::<Seq<T>, ErrorView>(e),
        None => exists|latents: Seq<T>|
            #[trigger] are_latents_of(codes, n_frames, rvq, calc, latents) && sound_does(
                latents,
                n_frames,
                post,
                stages,
                decoder,
                calc,
                r,
            ),
    }
}

/// Turns codes into sound.
pub fn decode_waveform<T: Copy, F: Fn(Op, T, T, T) -> T>(
    codes: &[i32],
    num_codebooks: u32,
    n_frames: u32,
    rvq: &CodecValues<T>,
    post: &CodecModuleValues<T>,
    stages: &Vec<CodecStageValues<T>>,
    decoder: &CodecDecoderValues<T>,
    calc: &Calc<T, F>,
) -> (r: Result<CodecWaveformResult<T>, InferError>)
    requires
        calc.works(),
        rvq.count() <= u32::MAX,
        n_frames * 1024 <= usize::MAX,
        decoder.usable(),
    ensures
        match r {
            Ok(v) => {
                &&& waveform_does(
                    codes@,
                    num_codebooks,
                    n_frames,
                    *rvq,
                    *post,
                    stages@,
                    *decoder,
                    *calc,
                    Ok(v.samples@),
                )
                &&& v.sample_rate == 44100
                &&& v.input_frames == n_frames
                &&& v.latent_frames == doubled(n_frames as nat, stages@.len())
                &&& v.num_samples == v.samples@.len()
                &&& stages@.len() == 2 && decoder.has_all_blocks() && 0 < n_frames && n_frames
                    * 2048 < 0x100_0000 ==> v.samples@.len() == n_frames * 2048
            },
            Err(e) => waveform_does(
                codes@,
                num_codebooks,
                n_frames,
                *rvq,
                *post,
                stages@,
                *decoder,
                *calc,
                Err(e@),
            ),
        },
{
    let found = match rvq_lookup_codes(codes, num_codebooks, n_frames, rvq, calc) {
        Err(e) => {
            return Err(e);
        },
        Ok(v) => v,
    };
    assert(are_latents_of(codes@, n_frames, *rvq, *calc, found.latents@));
    let ghost steps = latent_steps(n_frames, *post, stages@, *calc);
    let latents = match rvq_decode_latents(
        found.latents.as_slice(),
        found.n_frames,
        post,
        stages,
        calc,
    ) {
        Err(e) => {
            assert(flows(steps, found.latents@, Err(e@)));
            assert(sound_does(
                found.latents@,
                n_frames,
                *post,
                stages@,
                *decoder,
                *calc,
                Err(e@),
            ));
            return Err(e);
        },
        Ok(v) => v,
    };
    assert(flows(steps, found.latents@, Ok(latents.hidden@)));
    let samples = match forward_codec_decoder(
        latents.hidden.as_slice(),
        latents.output_frames,
        latents.hidden_dim,
        decoder,
        calc,
    ) {
        Err(e) => {
            assert(sound_does(
                found.latents@,
                n_frames,
                *post,
                stages@,
                *decoder,
                *calc,
                Err(e@),
            ));
            return Err(e);
        },
        Ok(v) => v,
    };
    assert(sound_does(
        found.latents@,
        n_frames,
        *post,
        stages@,
        *decoder,
        *calc,
        Ok(samples@),
    ));
    Ok(
        CodecWaveformResult {
            sample_rate: CODEC_SAMPLE_RATE,
            input_frames: n_frames,
            latent_frames: latents.output_frames,
            num_samples: samples.len(),
            samples,
        },
    )
}

/// Whether these are the bits of values.
pub open spec fn are_bits<T, H: Fn(T) -> u32>(values: Seq<T>, bits: H, out: Seq<u32>) -> bool {
    &&& out.len() == values.len()
    &&& forall|i: int| 0 <= i < values.len() ==> call_ensures(bits, (values[i],), #[trigger] out[i])
}

pub(crate) fn to_bits<T: Copy, H: Fn(T) -> u32>(values: &[T], bits: &H) -> (r: Vec<u32>)
    requires
        forall|a: T| call_requires(*bits, (a,)),
    ensures
        are_bits(values@, *bits, r@),
{
    let mut out: Vec<u32> = Vec::new();
    let mut i: usize = 0;
    while i < values.len()
        invariant
            i <= values@.len(),
            forall|a: T| call_requires(*bits, (a,)),
            out@.len() == i,
            forall|k: int| 0 <= k < i ==> call_ensures(*bits, (values@[k],), #[trigger] out@[k]),
        decreases values@.len() - i,
    {
        let v: u32 = bits(values[i]);
        out.push(v);
        i = i + 1;
    }
    out
}

/// Turns codes into a WAV file, where the sizes in its header can tell how long the sound is.
pub fn decode_waveform_to_wav<T: Copy, F: Fn(Op, T, T, T) -> T, H: Fn(T) -> u32>(
    codes: &[i32],
    num_codebooks: u32,
    n_frames: u32,
    rvq: &CodecValues<T>,
    post: &CodecModuleValues<T>,
    stages: &Vec<CodecStageValues<T>>,
    decoder: &CodecDecoderValues<T>,
    calc: &Calc<T, F>,
    bits: &H,
) -> (r: Result<Option<Vec<u8>>, InferError>)
    requires
        calc.works(),
        forall|a: T| call_requires(*bits, (a,)),
        rvq.count() <= u32::MAX,
        n_frames * 1024 <= usize::MAX,
        decoder.usable(),
    ensures
        match r {
            Ok(file) => exists|values: Seq<T>|
                #[trigger] waveform_does(
                    codes@,
                    num_codebooks,
                    n_frames,
                    *rvq,
                    *post,
                    stages@,
                    *decoder,
                    *calc,
                    Ok(values),
                ) && match file {
                    None => 44 + 2 * values.len() > u32::MAX,
                    Some(bytes) => 44 + 2 * values.len() <= u32::MAX && exists|found: Seq<u32>|
                        #[trigger] are_bits(values, *bits, found) && bytes@ == wav_file(
                            samples_of(found),
                            44100,
                        ),
                },
            Err(e) => waveform_does(
                codes@,
                num_codebooks,
                n_frames,
                *rvq,
                *post,
                stages@,
                *decoder,
                *calc,
                Err(e@),
            ),
        },
{
    match decode_waveform(
        codes,
        num_codebooks,
        n_frames,
        rvq,
        post,
        stages,
        decoder,
        calc,
    ) {
        Err(e) => Err(e),
        Ok(v) => {
            if v.samples.len() as u64 > 2147483625 {
                Ok(None)
            } else {
                let found = to_bits(v.samples.as_slice(), bits);
                Ok(Some(pcm_to_wav(found.as_slice(), v.sample_rate)))
            }
        },
    }
}

// ---------------------------------------------------------------------
// Codes from sound
// ---------------------------------------------------------------------

/// The weights that turn sound into codes, as they are stored.
#[derive(Debug)]
pub struct CodecReferenceEncoderF16Weights {
    pub encoder: CodecEncoderF16Weights,
    pub quantizer_downsample: CodecDownsampleF16Weights,
    pub quantizer_pre_module: CodecPreModuleF16Weights,
    pub rvq: CodecF16Weights,
}

/// The weights that turn sound into codes, as values.
#[derive(Debug)]
pub struct CodecReferenceEncoderValues<T> {
    pub encoder: CodecEncoderValues<T>,
    pub quantizer_downsample: Vec<CodecStageValues<T>>,
    pub quantizer_pre_module: CodecModuleValues<T>,
    pub rvq: CodecValues<T>,
}

/// What is wrong with the weights of a file that turn sound into codes, if anything.
pub open spec fn reference_error(f: FileView, file: Seq<u8>) -> Option<ErrorView> {
    or_else(
        codec_error(f),
        or_else(
            encoder_error(f, file),
            or_else(
                downsample_error(f, file),
                or_else(
                    module_error(f, file, "quantizer.pre_module"@),
                    quantizers_error(f, file),
                ),
            ),
        ),
    )
}

impl CodecReferenceEncoderF16Weights {
    /// The weights of a model file that turn sound into codes.
    pub fn from_gguf(gguf: &GgufFile, file: &[u8]) -> (r: Result<
        CodecReferenceEncoderF16Weights,
        InferError,
    >)
        requires
            tensors_inside(gguf@),
        ensures
            match r {
                Ok(w) => {
                    &&& reference_error(gguf@, file@) is None
                    &&& w.encoder.are_of(gguf@, file@)
                    &&& w.quantizer_downsample.are_of(gguf@, file@)
                    &&& w.quantizer_pre_module.are_of(gguf@, file@)
                    &&& w.rvq.are_of(gguf@, file@)
                },
                Err(e) => reference_error(gguf@, file@) == Some(e@),
            },
    {
        let registry = match CodecTensorRegistry::from_gguf(gguf) {
            Err(e) => {
                return Err(e);
            },
            Ok(v) => v,
        };
        let encoder = match CodecEncoderF16Weights::from_gguf(gguf, file) {
            Err(e) => {
                return Err(e);
            },
            Ok(v) => v,
        };
        let quantizer_downsample = match CodecDownsampleF16Weights::from_gguf_registry(
            gguf,
            file,
            &registry,
        ) {
            Err(e) => {
                return Err(e);
            },
            Ok(v) => v,
        };
        let quantizer_pre_module = match CodecPreModuleF16Weights::from_gguf_registry(gguf, file, &registry) {
            Err(e) => {
                return Err(e);
            },
            Ok(v) => v,
        };
        let rvq = match CodecF16Weights::from_gguf_registry(gguf, file, &registry) {
            Err(e) => {
                return Err(e);
            },
            Ok(v) => v,
        };
        Ok(
            CodecReferenceEncoderF16Weights {
                encoder,
                quantizer_downsample,
                quantizer_pre_module,
                rvq,
            },
        )
    }

    /// The weights as values.
    pub fn values<T: Copy, F: Fn(Op, T, T, T) -> T>(&self, calc: &Calc<T, F>) -> (r:
        CodecReferenceEncoderValues<T>)
        requires
            calc.works(),
        ensures
            r.encoder.come_from(self.encoder, *calc),
            r.quantizer_downsample@.len() == self.quantizer_downsample.stages@.len(),
            forall|i: int|
                0 <= i < r.quantizer_downsample@.len() ==> (
                #[trigger] r.quantizer_downsample@[i]).come_from_downsample_stage(
                    self.quantizer_downsample.stages@[i],
                    *calc,
                ),
            r.quantizer_pre_module.come_from(
                self.quantizer_pre_module.layers@,
                self.quantizer_pre_module.norm_weight,
                *calc,
            ),
            r.rvq.come_from(self.rvq, *calc),
    {
        CodecReferenceEncoderValues {
            encoder: self.encoder.values(calc),
            quantizer_downsample: self.quantizer_downsample.values(calc),
            quantizer_pre_module: self.quantizer_pre_module.values(calc),
            rvq: self.rvq.values(calc),
        }
    }
}

/// The codes of sound.
#[derive(Debug)]
pub struct CodecReferenceAudioResult<T> {
    pub input_samples: u32,
    pub padded_samples: u32,
    pub encoder_frames: u32,
    pub quantizer_frames: u32,
    pub num_codebooks: u32,
    pub codes: Vec<i32>,
    pub final_residual_l2: Vec<T>,
}

/// Whether sound becomes these frames of values for the quantizers, or this error.
pub open spec fn frames_of_sound<T: Copy, F: Fn(Op, T, T, T) -> T>(
    audio: Seq<T>,
    w: CodecReferenceEncoderValues<T>,
    calc: Calc<T, F>,
    frames: u32,
    r: Result<Seq<T>, ErrorView>,
) -> bool {
    exists|m: Result<Seq<T>, ErrorView>|
        #[trigger] encoder_does(audio, w.encoder, false, calc, m) && match m {
            Err(e) => r == Err::<Seq<T>, ErrorView>(e),
            Ok(hidden) => encode_does(
                hidden,
                frames,
                w.quantizer_downsample@,
                w.quantizer_pre_module,
                calc,
                r,
            ),
        }
}

impl<T: Copy> CodecReferenceEncoderValues<T> {
    /// Whether every kernel has a tap at least.
    pub open spec fn usable(&self) -> bool {
        &&& self.encoder.usable()
        &&& forall|i: int|
            0 <= i < self.quantizer_downsample@.len() ==> (
            #[trigger] self.quantizer_downsample@[i]).halvable()
        &&& self.rvq.count() <= usize::MAX
    }
}

impl<T: Copy> CodecReferenceAudioResult<T> {
    /// How many frames the encoder and the stages after it make of sound.
    pub open spec fn counts(&self, samples: nat, w: CodecReferenceEncoderValues<T>) -> bool {
        &&& self.input_samples == samples
        &&& self.padded_samples == crate::codec_blocks::padded_count(samples, 2048)->Ok_0
        &&& self.encoder_frames == encoder_frames(
            self.padded_samples as nat,
            used_blocks(w.encoder.blocks@.len()),
        )
        &&& self.quantizer_frames == halved(
            self.encoder_frames as nat,
            w.quantizer_downsample@.len(),
        )
        &&& self.num_codebooks == w.rvq.count()
        &&& self.codes@.len() == self.num_codebooks * self.quantizer_frames
        &&& self.final_residual_l2@.len() == self.quantizer_frames
    }

    /// Whether the codes are those of frames of values.
    pub open spec fn encodes<F: Fn(Op, T, T, T) -> T, G: Fn(T, T) -> bool>(
        &self,
        latents: Seq<T>,
        w: CodecReferenceEncoderValues<T>,
        calc: Calc<T, F>,
        exceeds: G,
    ) -> bool {
        &&& w.rvq.encode_error(latents.len(), self.quantizer_frames) is None
        &&& forall|f: int|
            0 <= f < self.quantizer_frames ==> w.rvq.are_codes_of(
                frame_codes(self.codes@, self.quantizer_frames as nat, f, w.rvq.count()),
                row(latents, f, 1024),
                calc,
                exceeds,
                #[trigger] self.final_residual_l2@[f],
            )
    }
}

/// How turning sound into codes can fail: in the encoder, in the stages after it, or in the
/// quantizers.
pub open spec fn reference_fails<T: Copy, F: Fn(Op, T, T, T) -> T>(
    audio: Seq<T>,
    w: CodecReferenceEncoderValues<T>,
    calc: Calc<T, F>,
    e: ErrorView,
) -> bool {
    ||| encoder_does(audio, w.encoder, false, calc, Err(e))
    ||| {
        let padded = crate::codec_blocks::padded_count(audio.len(), 2048)->Ok_0 as nat;
        let frames = encoder_frames(padded, used_blocks(w.encoder.blocks@.len())) as u32;
        let less = halved(frames as nat, w.quantizer_downsample@.len()) as u32;
        exists|m: Result<Seq<T>, ErrorView>|
            #[trigger] frames_of_sound(audio, w, calc, frames, m) && match m {
                Err(found) => found == e,
                Ok(latents) => w.rvq.encode_error(latents.len(), less) == Some(e),
            }
    }
}

/// Turns sound into codes.
pub fn encode_reference_audio<T: Copy, F: Fn(Op, T, T, T) -> T, G: Fn(T, T) -> bool>(
    audio: &[T],
    weights: &CodecReferenceEncoderValues<T>,
    calc: &Calc<T, F>,
    exceeds: &G,
) -> (r: Result<CodecReferenceAudioResult<T>, InferError>)
    requires
        calc.works(),
        forall|a: T, b: T| call_requires(*exceeds, (a, b)),
        weights.usable(),
    ensures
        match r {
            Ok(v) => v.counts(audio@.len(), *weights) && exists|latents: Seq<T>|
                #[trigger] frames_of_sound(
                    audio@,
                    *weights,
                    *calc,
                    v.encoder_frames,
                    Ok(latents),
                ) && v.encodes(latents, *weights, *calc, *exceeds),
            Err(e) => reference_fails(audio@, *weights, *calc, e@),
        },
{
    let encoder = match forward_codec_encoder_frontend(audio, &weights.encoder, calc) {
        Err(e) => {
            return Err(e);
        },
        Ok(v) => v,
    };
    assert(encoder_does(audio@, weights.encoder, false, *calc, Ok(encoder.hidden@)));
    let quantizer = match forward_codec_quantizer_encode_stage(
        encoder.hidden.as_slice(),
        encoder.output_frames,
        &weights.quantizer_downsample,
        &weights.quantizer_pre_module,
        calc,
    ) {
        Err(e) => {
            assert(frames_of_sound(audio@, *weights, *calc, encoder.output_frames, Err(e@)));
            return Err(e);
        },
        Ok(v) => v,
    };
    assert(frames_of_sound(
        audio@,
        *weights,
        *calc,
        encoder.output_frames,
        Ok(quantizer.hidden@),
    ));
    let vq = match rvq_encode_latents_nearest(
        quantizer.hidden.as_slice(),
        quantizer.output_frames,
        &weights.rvq,
        calc,
        exceeds,
    ) {
        Err(e) => {
            return Err(e);
        },
        Ok(v) => v,
    };
    let out = CodecReferenceAudioResult {
        input_samples: encoder.input_samples,
        padded_samples: encoder.padded_samples,
        encoder_frames: encoder.output_frames,
        quantizer_frames: quantizer.output_frames,
        num_codebooks: vq.num_codebooks,
        codes: vq.codes,
        final_residual_l2: vq.final_residual_l2,
    };
    assert(out.encodes(quantizer.hidden@, *weights, *calc, *exceeds));
    Ok(out)
}

// ---------------------------------------------------------------------
// Whether weights can be used
// ---------------------------------------------------------------------

fn conv_can_be_used(s: Conv1dFrameMajorSpec, weight: usize) -> (r: bool)
    ensures
        r == s.usable(weight as nat),
{
    if s.in_ch == 0 || s.out_ch == 0 {
        return false;
    }
    let cells: usize = match s.in_ch.checked_mul(s.out_ch) {
        None => {
            return false;
        },
        Some(n) => n,
    };
    if cells > weight {
        return false;
    }
    proof {
        assert(cells > 0) by (nonlinear_arith)
            requires
                cells == s.in_ch * s.out_ch,
                s.in_ch > 0,
                s.out_ch > 0,
        ;
        vstd::arithmetic::div_mod::lemma_div_is_ordered(cells as int, weight as int, cells as int);
        vstd::arithmetic::div_mod::lemma_div_by_self(cells as int);
    }
    let taps: usize = weight / cells;
    match (taps - 1).checked_mul(s.dilation) {
        None => false,
        Some(n) => n < usize::MAX,
    }
}

fn unit_can_be_used<T: Copy>(
    w: &CodecResidualUnitValues<T>,
    channels: usize,
    dilation: usize,
) -> (r: bool)
    ensures
        r == w.usable(channels, dilation),
{
    conv_can_be_used(
        Conv1dFrameMajorSpec { frames: 0, in_ch: channels, out_ch: channels, stride: 1, dilation },
        w.conv0_weight.len(),
    ) && conv_can_be_used(
        Conv1dFrameMajorSpec {
            frames: 0,
            in_ch: channels,
            out_ch: channels,
            stride: 1,
            dilation: 1,
        },
        w.conv1_weight.len(),
    )
}

impl<T: Copy> CodecEncoderValues<T> {
    /// Whether the encoder can work with these weights.
    pub fn can_be_used(&self) -> (r: bool)
        ensures
            r == self.usable(),
    {
        let entry = Conv1dFrameMajorSpec {
            frames: 0,
            in_ch: 1,
            out_ch: 64,
            stride: 1,
            dilation: 1,
        };
        if !conv_can_be_used(entry, self.entry_conv_weight.len()) {
            return false;
        }
        let n: usize = if self.blocks.len() < 4 {
            self.blocks.len()
        } else {
            4
        };
        let mut channels: usize = 64;
        let mut i: usize = 0;
        while i < n
            invariant
                i <= n,
                n == used_blocks(self.blocks@.len()),
                self.leads_to(i as int),
                channels == channels_before(self.blocks@, i as int),
                entry_conv(0).usable(self.entry_conv_weight@.len()),
                forall|k: int|
                    0 <= k < i ==> (#[trigger] self.blocks@[k]).usable(
                        channels_before(self.blocks@, k),
                        encoder_rate(k),
                    ),
            decreases n - i,
        {
            let stride: usize = if i == 0 {
                2
            } else if i == 1 {
                4
            } else {
                8
            };
            let b = &self.blocks[i];
            if !(unit_can_be_used(&b.residual_1, channels, 1) && unit_can_be_used(
                &b.residual_2,
                channels,
                3,
            ) && unit_can_be_used(&b.residual_3, channels, 9)) {
                assert(!self.blocks@[i as int].usable(channels, encoder_rate(i as int)));
                return false;
            }
            match encoder_block_output_channels(b.index) {
                Err(_) => {
                    proof {
                        assert(encoder_channels(self.blocks@[i as int].index) is Err);
                        assert forall|k: int| 0 <= k < n && self.leads_to(k) implies (
                        #[trigger] self.blocks@[k]).usable(
                            channels_before(self.blocks@, k),
                            encoder_rate(k),
                        ) by {
                            assert(k <= i);
                        }
                    }
                    return true;
                },
                Ok(out) => {
                    let s = Conv1dFrameMajorSpec {
                        frames: 0,
                        in_ch: channels,
                        out_ch: out,
                        stride,
                        dilation: 1,
                    };
                    if !conv_can_be_used(s, b.down_conv_weight.len()) {
                        assert(!self.blocks@[i as int].usable(channels, encoder_rate(i as int)));
                        return false;
                    }
                    channels = out;
                },
            }
            i = i + 1;
        }
        let last = Conv1dFrameMajorSpec {
            frames: 0,
            in_ch: channels,
            out_ch: 1024,
            stride: 1,
            dilation: 1,
        };
        conv_can_be_used(last, self.output_conv_weight.len())
    }
}

impl<T: Copy> CodecDecoderValues<T> {
    /// Whether the decoder can work with these weights.
    pub fn can_be_used(&self) -> (r: bool)
        ensures
            r == self.usable(),
    {
        let entry = Conv1dFrameMajorSpec {
            frames: 0,
            in_ch: 1024,
            out_ch: 1536,
            stride: 1,
            dilation: 1,
        };
        if !conv_can_be_used(entry, self.entry_conv_weight.len()) {
            return false;
        }
        let n: usize = if self.blocks.len() < 4 {
            self.blocks.len()
        } else {
            4
        };
        let mut channels: usize = 1536;
        let mut i: usize = 0;
        while i < n
            invariant
                i <= n,
                n == used_decoder_blocks(self.blocks@.len()),
                self.leads_to(i as int),
                channels == decoder_channels_before(self.blocks@, i as int),
                0 < channels <= 1536,
                decoder_entry_conv(0).usable(self.entry_conv_weight@.len()),
                forall|k: int|
                    0 <= k < i ==> (#[trigger] self.blocks@[k]).usable(
                        decoder_channels_before(self.blocks@, k),
                        decoder_rate(k),
                    ),
            decreases n - i,
        {
            let b = &self.blocks[i];
            match block_output_channels(b.index) {
                Err(_) => {
                    proof {
                        assert(decoder_channels(self.blocks@[i as int].index) is Err);
                        assert forall|k: int| 0 <= k < n && self.leads_to(k) implies (
                        #[trigger] self.blocks@[k]).usable(
                            decoder_channels_before(self.blocks@, k),
                            decoder_rate(k),
                        ) by {
                            assert(k <= i);
                        }
                    }
                    return true;
                },
                Ok(out) => {
                    proof {
                        assert(channels * out <= 1536 * 768) by (nonlinear_arith)
                            requires
                                0 <= channels <= 1536,
                                0 <= out <= 768,
                        ;
                    }
                    if !(unit_can_be_used(&b.residual_1, out, 1) && unit_can_be_used(
                        &b.residual_2,
                        out,
                        3,
                    ) && unit_can_be_used(&b.residual_3, out, 9)) {
                        assert(!self.blocks@[i as int].usable(channels, decoder_rate(i as int)));
                        return false;
                    }
                    channels = out;
                },
            }
            i = i + 1;
        }
        let last = Conv1dFrameMajorSpec {
            frames: 0,
            in_ch: channels,
            out_ch: 1,
            stride: 1,
            dilation: 1,
        };
        conv_can_be_used(last, self.output_conv_weight.len())
    }
}

impl<T: Copy> CodecReferenceEncoderValues<T> {
    /// Whether sound can be turned into codes with these weights.
    pub fn can_be_used(&self) -> (r: bool)
        ensures
            r == self.usable(),
    {
        if !self.encoder.can_be_used() {
            return false;
        }
        let mut i: usize = 0;
        while i < self.quantizer_downsample.len()
            invariant
                i <= self.quantizer_downsample@.len(),
                self.encoder.usable(),
                forall|k: int|
                    0 <= k < i ==> (#[trigger] self.quantizer_downsample@[k]).halvable(),
            decreases self.quantizer_downsample@.len() - i,
        {
            let halving = Conv1dFrameMajorSpec {
                frames: 0,
                in_ch: 1024,
                out_ch: 1024,
                stride: 2,
                dilation: 1,
            };
            if !conv_can_be_used(halving, self.quantizer_downsample[i].conv_weight.len()) {
                assert(!self.quantizer_downsample@[i as int].halvable());
                return false;
            }
            i = i + 1;
        }
        self.rvq.residual_quantizers.len() < usize::MAX
    }
}

} // verus!
