//! The codec's encoder.
use crate::codec_blocks::{
    encoder_block_output_channels, encoder_channels, encoder_downsample_output_frames,
    forward_codec_residual_unit, frames_after, pad_sample_count, padded_count,
};
use crate::codec_coder_weights::{CodecEncoderBlockValues, CodecEncoderValues};
use crate::codec_modules::{forward_transformer, transformer_does};
use crate::codec_names::CODEC_FRAME_LENGTH;
use crate::conv::{
    frames_error, snake_activation_frame_major, snake_does, validate_frame_major_len,
};
use crate::convolve::{causal_conv_1d_frame_major, conv_does, Conv1dFrameMajorSpec};
use crate::error::{message, ErrorView, InferError};
use crate::flow::{flows, follows, lemma_start, lemma_step, outcome, reaches};
use crate::numeric::{Calc, Op};
use crate::text::{dec, dec_usize};
use vstd::prelude::*;
use vstd::slice::slice_to_vec;
use vstd::string::*;

verus! {

// ---------------------------------------------------------------------
// Encoder blocks
// ---------------------------------------------------------------------

/// The values that a transformer inside the encoder may have for its last norm.
pub open spec fn norm_values<T>(norm: Option<Vec<T>>) -> Option<Seq<T>> {
    match norm {
        Some(v) => Some(v@),
        None => None,
    }
}

impl<T: Copy> CodecEncoderBlockValues<T> {
    /// The sizes of the convolution that lowers the frame rate.
    pub open spec fn lowering(&self, frames: usize, channels: usize, stride: usize)
        -> Conv1dFrameMajorSpec {
        Conv1dFrameMajorSpec {
            frames,
            in_ch: channels,
            out_ch: encoder_channels(self.index)->Ok_0,
            stride,
            dilation: 1,
        }
    }

    /// Whether every kernel has a tap at least.
    pub open spec fn usable(&self, channels: usize, stride: usize) -> bool {
        &&& self.residual_1.usable(channels, 1)
        &&& self.residual_2.usable(channels, 3)
        &&& self.residual_3.usable(channels, 9)
        &&& encoder_channels(self.index) is Ok ==> self.lowering(0, channels, stride).usable(
            self.down_conv_weight@.len(),
        )
    }

    /// What the transformer inside the block does, and the check of what it gives.
    pub open spec fn inside_does<F: Fn(Op, T, T, T) -> T>(
        &self,
        x: Seq<T>,
        frames: usize,
        stride: usize,
        calc: Calc<T, F>,
        r: Result<Seq<T>, ErrorView>,
    ) -> bool {
        let channels = encoder_channels(self.index)->Ok_0;
        if self.transformer_layers@.len() == 0 {
            r == Ok::<Seq<T>, ErrorView>(x)
        } else {
            match frames_after(frames as nat, stride as nat) {
                Err(e) => r == Err::<Seq<T>, ErrorView>(e),
                Ok(out_frames) => exists|m: Result<Seq<T>, ErrorView>|
                    #[trigger] transformer_does(
                        x,
                        channels as nat,
                        self.transformer_layers@,
                        512,
                        norm_values(self.transformer_norm_weight),
                        calc,
                        m,
                    ) && match m {
                        Err(e) => r == Err::<Seq<T>, ErrorView>(e),
                        Ok(v) => r == (match frames_error(
                            "encoder transformer output"@,
                            v.len(),
                            out_frames as nat,
                            channels as nat,
                        ) {
                            Some(e) => Err::<Seq<T>, ErrorView>(e),
                            None => Ok(v),
                        }),
                    },
            }
        }
    }

    /// The steps of an encoder block.
    pub open spec fn steps<F: Fn(Op, T, T, T) -> T>(
        &self,
        frames: usize,
        channels: usize,
        stride: usize,
        calc: Calc<T, F>,
    ) -> Seq<spec_fn(Seq<T>, Result<Seq<T>, ErrorView>) -> bool> {
        seq![
            |x: Seq<T>, r: Result<Seq<T>, ErrorView>|
                self.residual_1.does(x, frames, channels, 1, calc, r),
            |x: Seq<T>, r: Result<Seq<T>, ErrorView>|
                self.residual_2.does(x, frames, channels, 3, calc, r),
            |x: Seq<T>, r: Result<Seq<T>, ErrorView>|
                self.residual_3.does(x, frames, channels, 9, calc, r),
            |x: Seq<T>, r: Result<Seq<T>, ErrorView>|
                snake_does(x, frames as nat, channels as nat, self.snake_alpha@, calc, r),
            |x: Seq<T>, r: Result<Seq<T>, ErrorView>|
                match encoder_channels(self.index) {
                    Err(e) => r == Err::<Seq<T>, ErrorView>(e),
                    Ok(_) => conv_does(
                        self.lowering(frames, channels, stride),
                        x,
                        self.down_conv_weight@,
                        self.down_conv_bias@,
                        calc,
                        r,
                    ),
                },
            |x: Seq<T>, r: Result<Seq<T>, ErrorView>|
                self.inside_does(x, frames, stride, calc, r),
        ]
    }

    /// What an encoder block does.
    pub open spec fn does<F: Fn(Op, T, T, T) -> T>(
        &self,
        input: Seq<T>,
        frames: usize,
        channels: usize,
        stride: usize,
        calc: Calc<T, F>,
        r: Result<Seq<T>, ErrorView>,
    ) -> bool {
        match frames_error("encoder block input"@, input.len(), frames as nat, channels as nat) {
            Some(e) => r == Err::<Seq<T>, ErrorView>(e),
            None => flows(self.steps(frames, channels, stride, calc), input, r),
        }
    }
}

fn inside_block<T: Copy, F: Fn(Op, T, T, T) -> T>(
    x: Vec<T>,
    frames: usize,
    stride: usize,
    channels: usize,
    weights: &CodecEncoderBlockValues<T>,
    calc: &Calc<T, F>,
) -> (r: Result<Vec<T>, InferError>)
    requires
        calc.works(),
        encoder_channels(weights.index) == Ok::<usize, ErrorView>(channels),
    ensures
        weights.inside_does(x@, frames, stride, *calc, outcome(r)),
{
    if weights.transformer_layers.len() == 0 {
        return Ok(x);
    }
    let out_frames: usize = match encoder_downsample_output_frames(frames, stride) {
        Err(e) => {
            return Err(e);
        },
        Ok(n) => n,
    };
    let norm: Option<&Vec<T>> = match &weights.transformer_norm_weight {
        None => None,
        Some(v) => Some(v),
    };
    let m = forward_transformer(
        x.as_slice(),
        channels,
        &weights.transformer_layers,
        512,
        norm,
        calc,
    );
    assert(transformer_does(
        x@,
        channels as nat,
        weights.transformer_layers@,
        512,
        norm_values(weights.transformer_norm_weight),
        *calc,
        outcome(m),
    ));
    match m {
        Err(e) => Err(e),
        Ok(v) => match validate_frame_major_len(
            "encoder transformer output",
            v.len(),
            out_frames,
            channels,
        ) {
            Err(e) => Err(e),
            Ok(_) => Ok(v),
        },
    }
}

/// Lets an encoder block work on frames.
pub fn forward_codec_encoder_block<T: Copy, F: Fn(Op, T, T, T) -> T>(
    input: &[T],
    frames: usize,
    channels: usize,
    stride: usize,
    weights: &CodecEncoderBlockValues<T>,
    calc: &Calc<T, F>,
) -> (r: Result<Vec<T>, InferError>)
    requires
        calc.works(),
        weights.usable(channels, stride),
    ensures
        weights.does(input@, frames, channels, stride, *calc, outcome(r)),
        r is Ok ==> encoder_channels(weights.index) is Ok,
{
    match validate_frame_major_len("encoder block input", input.len(), frames, channels) {
        Err(e) => {
            return Err(e);
        },
        Ok(_) => {},
    }
    let ghost steps = weights.steps(frames, channels, stride, *calc);
    proof {
        lemma_start(steps, input@);
    }
    let r0 = forward_codec_residual_unit(
        input,
        frames,
        channels,
        1,
        &weights.residual_1,
        calc,
    );
    proof {
        assert(steps[0](input@, outcome(r0)));
        lemma_step(steps, input@, 0, input@, outcome(r0));
    }
    let x0 = match r0 {
        Err(e) => {
            return Err(e);
        },
        Ok(v) => v,
    };
    let r1 = forward_codec_residual_unit(
        x0.as_slice(),
        frames,
        channels,
        3,
        &weights.residual_2,
        calc,
    );
    proof {
        assert(steps[1](x0@, outcome(r1)));
        lemma_step(steps, input@, 1, x0@, outcome(r1));
    }
    let x1 = match r1 {
        Err(e) => {
            return Err(e);
        },
        Ok(v) => v,
    };
    let r2 = forward_codec_residual_unit(
        x1.as_slice(),
        frames,
        channels,
        9,
        &weights.residual_3,
        calc,
    );
    proof {
        assert(steps[2](x1@, outcome(r2)));
        lemma_step(steps, input@, 2, x1@, outcome(r2));
    }
    let x2 = match r2 {
        Err(e) => {
            return Err(e);
        },
        Ok(v) => v,
    };
    let r3 = snake_activation_frame_major(
        x2.as_slice(),
        frames,
        channels,
        weights.snake_alpha.as_slice(),
        calc,
    );
    proof {
        assert(steps[3](x2@, outcome(r3)));
        lemma_step(steps, input@, 3, x2@, outcome(r3));
    }
    let x3 = match r3 {
        Err(e) => {
            return Err(e);
        },
        Ok(v) => v,
    };
    let out_channels: usize = match encoder_block_output_channels(weights.index) {
        Err(e) => {
            proof {
                assert(steps[4](x3@, Err(e@)));
                lemma_step(steps, input@, 4, x3@, Err(e@));
            }
            return Err(e);
        },
        Ok(n) => n,
    };
    let spec = Conv1dFrameMajorSpec {
        frames,
        in_ch: channels,
        out_ch: out_channels,
        stride,
        dilation: 1,
    };
    let r4 = causal_conv_1d_frame_major(
        x3.as_slice(),
        spec,
        weights.down_conv_weight.as_slice(),
        weights.down_conv_bias.as_slice(),
        calc,
    );
    proof {
        assert(steps[4](x3@, outcome(r4)));
        lemma_step(steps, input@, 4, x3@, outcome(r4));
    }
    let x4 = match r4 {
        Err(e) => {
            return Err(e);
        },
        Ok(v) => v,
    };
    let ghost lowered = x4@;
    let r5 = inside_block(x4, frames, stride, out_channels, weights, calc);
    proof {
        assert(steps[5](lowered, outcome(r5)));
        lemma_step(steps, input@, 5, lowered, outcome(r5));
    }
    r5
}

// ---------------------------------------------------------------------
// The encoder
// ---------------------------------------------------------------------

/// By how much an encoder block lowers the frame rate.
pub open spec fn encoder_rate(i: int) -> usize {
    if i == 0 {
        2
    } else if i == 1 {
        4
    } else {
        8
    }
}

fn rate_of(i: usize) -> (r: usize)
    ensures
        r == encoder_rate(i as int),
{
    if i == 0 {
        2
    } else if i == 1 {
        4
    } else {
        8
    }
}

/// How many blocks are used.
pub open spec fn used_blocks(count: nat) -> nat {
    if count < 4 {
        count
    } else {
        4
    }
}

/// How many frames there are before encoder block `i`.
pub open spec fn encoder_frames(padded: nat, i: nat) -> nat
    decreases i,
{
    if i == 0 {
        padded
    } else {
        frames_after(
            encoder_frames(padded, (i - 1) as nat),
            encoder_rate(i - 1) as nat,
        )->Ok_0 as nat
    }
}

/// How many channels there are before encoder block `i`.
pub open spec fn channels_before<T>(blocks: Seq<CodecEncoderBlockValues<T>>, i: int) -> usize {
    if i <= 0 {
        64
    } else {
        encoder_channels(blocks[i - 1].index)->Ok_0
    }
}

impl<T: Copy> CodecEncoderValues<T> {
    /// Whether every kernel has a tap at least.
    pub open spec fn usable(&self) -> bool {
        let n = used_blocks(self.blocks@.len()) as int;
        &&& entry_conv(0).usable(self.entry_conv_weight@.len())
        &&& forall|i: int|
            0 <= i < n && self.leads_to(i) ==> (#[trigger] self.blocks@[i]).usable(
                channels_before(self.blocks@, i),
                encoder_rate(i),
            )
        &&& self.leads_to(n) ==> output_conv(0, channels_before(self.blocks@, n)).usable(
            self.output_conv_weight@.len(),
        )
    }

    /// Whether all blocks before block `i` have an index that is known.
    pub open spec fn leads_to(&self, i: int) -> bool {
        forall|j: int| 0 <= j < i ==> encoder_channels((#[trigger] self.blocks@[j]).index) is Ok
    }

    /// How many frames there are after work `k`.
    pub open spec fn frames_at(&self, padded: nat, k: int) -> nat {
        let n = used_blocks(self.blocks@.len());
        encoder_frames(
            padded,
            if k <= 0 {
                0
            } else if k <= n {
                k as nat
            } else {
                n
            },
        )
    }

    /// How many channels there are after work `k`.
    pub open spec fn channels_at(&self, k: int) -> usize {
        let n = used_blocks(self.blocks@.len()) as int;
        if k >= n + 2 {
            1024
        } else if k > n {
            channels_before(self.blocks@, n)
        } else {
            channels_before(self.blocks@, k)
        }
    }

    /// What work `k` does: the entry, the blocks, the last activation, the output.
    #[verifier::opaque]
    pub open spec fn work_does<F: Fn(Op, T, T, T) -> T>(
        &self,
        padded: nat,
        k: int,
        calc: Calc<T, F>,
        x: Seq<T>,
        r: Result<Seq<T>, ErrorView>,
    ) -> bool {
        let n = used_blocks(self.blocks@.len()) as int;
        let frames = self.frames_at(padded, k - 1) as usize;
        let channels = self.channels_at(k - 1);
        if k == 0 {
            conv_does(
                entry_conv(padded as usize),
                x,
                self.entry_conv_weight@,
                self.entry_conv_bias@,
                calc,
                r,
            )
        } else if k <= n {
            self.block_does(padded, k - 1, calc, x, r)
        } else if k == n + 1 {
            snake_does(x, frames as nat, channels as nat, self.tail_snake_alpha@, calc, r)
        } else {
            conv_does(
                output_conv(frames, channels),
                x,
                self.output_conv_weight@,
                self.output_conv_bias@,
                calc,
                r,
            )
        }
    }

    /// What the check after work `k` does, where values are collected.
    pub open spec fn check_does(
        &self,
        padded: nat,
        k: int,
        collect: bool,
        x: Seq<T>,
        r: Result<Seq<T>, ErrorView>,
    ) -> bool {
        let error = frames_error(
            "encoder checkpoint"@,
            x.len(),
            self.frames_at(padded, k),
            self.channels_at(k) as nat,
        );
        r == (if collect && error is Some {
            Err::<Seq<T>, ErrorView>(error->0)
        } else {
            Ok(x)
        })
    }

    /// The steps of the encoder, from padded samples on: work and check in turn.
    pub open spec fn steps<F: Fn(Op, T, T, T) -> T>(
        &self,
        padded: nat,
        collect: bool,
        calc: Calc<T, F>,
    ) -> Seq<spec_fn(Seq<T>, Result<Seq<T>, ErrorView>) -> bool> {
        Seq::new(
            2 * (used_blocks(self.blocks@.len()) + 3),
            |j: int|
                |x: Seq<T>, r: Result<Seq<T>, ErrorView>|
                    if j % 2 == 0 {
                        self.work_does(padded, j / 2, calc, x, r)
                    } else {
                        self.check_does(padded, j / 2, collect, x, r)
                    },
        )
    }

    /// What an encoder block does, with the count of frames that it leaves.
    pub open spec fn block_does<F: Fn(Op, T, T, T) -> T>(
        &self,
        padded: nat,
        i: int,
        calc: Calc<T, F>,
        x: Seq<T>,
        r: Result<Seq<T>, ErrorView>,
    ) -> bool {
        exists|m: Result<Seq<T>, ErrorView>|
            #[trigger] self.blocks@[i].does(
                x,
                encoder_frames(padded, i as nat) as usize,
                channels_before(self.blocks@, i),
                encoder_rate(i),
                calc,
                m,
            ) && match m {
                Err(e) => r == Err::<Seq<T>, ErrorView>(e),
                Ok(v) => match frames_after(
                    encoder_frames(padded, i as nat),
                    encoder_rate(i) as nat,
                ) {
                    Err(e) => r == Err::<Seq<T>, ErrorView>(e),
                    Ok(_) => r == Ok::<Seq<T>, ErrorView>(v),
                },
            }
    }
}

/// The sizes of the convolution at the encoder's entry.
pub open spec fn entry_conv(frames: usize) -> Conv1dFrameMajorSpec {
    Conv1dFrameMajorSpec { frames, in_ch: 1, out_ch: 64, stride: 1, dilation: 1 }
}

/// The sizes of the convolution at the encoder's end.
pub open spec fn output_conv(frames: usize, channels: usize) -> Conv1dFrameMajorSpec {
    Conv1dFrameMajorSpec { frames, in_ch: channels, out_ch: 1024, stride: 1, dilation: 1 }
}

/// Samples followed by zeros up to a count.
pub open spec fn with_zeros<T>(audio: Seq<T>, count: nat, zero: T) -> Seq<T> {
    Seq::new(
        count,
        |i: int|
            if i < audio.len() {
                audio[i]
            } else {
                zero
            },
    )
}

/// What the encoder did at one place: its name, frames and channels, and the values there.
#[derive(Debug)]
pub struct CodecEncoderFrontendCheckpoint<T> {
    pub name: String,
    pub frames: usize,
    pub channels: usize,
    pub hidden: Vec<T>,
}

/// What the encoder makes of audio.
#[derive(Debug)]
pub struct CodecEncoderFrontendResult<T> {
    pub input_samples: u32,
    pub padded_samples: u32,
    pub output_frames: u32,
    pub hidden_dim: usize,
    pub hidden: Vec<T>,
}

/// What is wrong with the length of audio, if anything.
pub open spec fn audio_error(samples: nat) -> Option<ErrorView> {
    if samples > u32::MAX {
        Some(message("encoder input sample count overflows u32"@))
    } else {
        match padded_count(samples, 2048) {
            Err(e) => Some(e),
            Ok(_) => None,
        }
    }
}

/// What the encoder does to audio.
pub open spec fn encoder_does<T: Copy, F: Fn(Op, T, T, T) -> T>(
    audio: Seq<T>,
    w: CodecEncoderValues<T>,
    collect: bool,
    calc: Calc<T, F>,
    r: Result<Seq<T>, ErrorView>,
) -> bool {
    match audio_error(audio.len()) {
        Some(e) => r == Err::<Seq<T>, ErrorView>(e),
        None => {
            let padded = padded_count(audio.len(), 2048)->Ok_0 as nat;
            exists|m: Result<Seq<T>, ErrorView>|
                #[trigger] flows(
                    w.steps(padded, collect, calc),
                    with_zeros(audio, padded, calc.zero),
                    m,
                ) && match m {
                    Err(e) => r == Err::<Seq<T>, ErrorView>(e),
                    Ok(v) => r == (match size_error(
                        padded,
                        encoder_frames(padded, used_blocks(w.blocks@.len())),
                    ) {
                        Some(e) => Err::<Seq<T>, ErrorView>(e),
                        None => Ok(v),
                    }),
                }
        },
    }
}

/// The name of the place after work `k`.
pub open spec fn place_name<T>(blocks: Seq<CodecEncoderBlockValues<T>>, k: int) -> Seq<char> {
    let n = used_blocks(blocks.len()) as int;
    if k == 0 {
        "entry_conv"@
    } else if k <= n {
        "encoder_block_"@ + dec(blocks[k - 1].index as nat)
    } else if k == n + 1 {
        "tail_snake"@
    } else {
        "output_conv"@
    }
}

/// Whether these are the values at all places along the way.
pub open spec fn are_checkpoints<T: Copy>(
    w: CodecEncoderValues<T>,
    padded: nat,
    trace: Seq<Result<Seq<T>, ErrorView>>,
    c: Seq<CodecEncoderFrontendCheckpoint<T>>,
) -> bool {
    forall|k: int|
        0 <= k < c.len() ==> {
            &&& (#[trigger] c[k]).name@ == place_name(w.blocks@, k)
            &&& c[k].frames == w.frames_at(padded, k)
            &&& c[k].channels == w.channels_at(k)
            &&& trace[2 * k + 2] == Ok::<Seq<T>, ErrorView>(c[k].hidden@)
        }
}

/// What is wrong with the counts of a result, if anything.
pub open spec fn size_error(padded: nat, frames: nat) -> Option<ErrorView> {
    if frames > u32::MAX {
        Some(message("encoder output_frames overflows u32"@))
    } else if padded > u32::MAX {
        Some(message("encoder padded_samples overflows u32"@))
    } else {
        None
    }
}

fn pad_audio<T: Copy>(audio: &[T], count: usize, zero: T) -> (r: Vec<T>)
    requires
        audio@.len() <= count,
    ensures
        r@ == with_zeros(audio@, count as nat, zero),
{
    let mut out = slice_to_vec(audio);
    let mut i: usize = audio.len();
    while i < count
        invariant
            audio@.len() <= i <= count,
            out@ == with_zeros(audio@, i as nat, zero),
        decreases count - i,
    {
        out.push(zero);
        i = i + 1;
        assert(out@ =~= with_zeros(audio@, i as nat, zero));
    }
    assert(out@ =~= with_zeros(audio@, count as nat, zero));
    out
}

/// Whether a trace of the encoder's work ends with these values and passes these checkpoints.
pub open spec fn is_encoder_trace<T: Copy, F: Fn(Op, T, T, T) -> T>(
    audio: Seq<T>,
    w: CodecEncoderValues<T>,
    calc: Calc<T, F>,
    hidden: Seq<T>,
    c: Seq<CodecEncoderFrontendCheckpoint<T>>,
) -> bool {
    let padded = padded_count(audio.len(), 2048)->Ok_0 as nat;
    exists|trace: Seq<Result<Seq<T>, ErrorView>>|
        {
            &&& #[trigger] follows(
                w.steps(padded, true, calc),
                with_zeros(audio, padded, calc.zero),
                trace,
            )
            &&& trace.len() == 2 * (used_blocks(w.blocks@.len()) + 3) + 1
            &&& trace.last() == Ok::<Seq<T>, ErrorView>(hidden)
            &&& c.len() == used_blocks(w.blocks@.len()) + 3
            &&& are_checkpoints(w, padded, trace, c)
        }
}

/// Lets the encoder work on audio.
pub fn forward_codec_encoder_frontend<T: Copy, F: Fn(Op, T, T, T) -> T>(
    audio: &[T],
    weights: &CodecEncoderValues<T>,
    calc: &Calc<T, F>,
) -> (r: Result<CodecEncoderFrontendResult<T>, InferError>)
    requires
        calc.works(),
        weights.usable(),
    ensures
        match r {
            Ok(v) => {
                &&& encoder_does(audio@, *weights, false, *calc, Ok(v.hidden@))
                &&& v.counts(audio@.len(), weights.blocks@.len())
            },
            Err(e) => encoder_does(audio@, *weights, false, *calc, Err(e@)),
        },
{
    match encode_audio(audio, weights, false, calc) {
        Err(e) => Err(e),
        Ok((v, _)) => Ok(v),
    }
}

/// Lets the encoder work on audio, and keeps the values at every place along the way.
pub fn forward_codec_encoder_frontend_with_checkpoints<T: Copy, F: Fn(Op, T, T, T) -> T>(
    audio: &[T],
    weights: &CodecEncoderValues<T>,
    calc: &Calc<T, F>,
) -> (r: Result<(CodecEncoderFrontendResult<T>, Vec<CodecEncoderFrontendCheckpoint<T>>), InferError>)
    requires
        calc.works(),
        weights.usable(),
    ensures
        match r {
            Ok(v) => {
                &&& encoder_does(audio@, *weights, true, *calc, Ok(v.0.hidden@))
                &&& v.0.counts(audio@.len(), weights.blocks@.len())
                &&& is_encoder_trace(audio@, *weights, *calc, v.0.hidden@, v.1@)
            },
            Err(e) => encoder_does(audio@, *weights, true, *calc, Err(e@)),
        },
{
    encode_audio(audio, weights, true, calc)
}

impl<T> CodecEncoderFrontendResult<T> {
    /// Whether the counts are those for audio of a length and an encoder of a number of blocks.
    pub open spec fn counts(&self, samples: nat, blocks: nat) -> bool {
        &&& audio_error(samples) is None
        &&& self.input_samples == samples
        &&& self.padded_samples == padded_count(samples, 2048)->Ok_0
        &&& self.output_frames == encoder_frames(self.padded_samples as nat, used_blocks(blocks))
        &&& self.hidden_dim == 1024
    }
}

/// Which block the frames before work `k` are ready for.
pub open spec fn before_work(k: int, n: int) -> int {
    if k <= 0 {
        0
    } else if k <= n {
        k - 1
    } else {
        n
    }
}

fn encoder_work<T: Copy, F: Fn(Op, T, T, T) -> T>(
    weights: &CodecEncoderValues<T>,
    k: usize,
    n: usize,
    frames: usize,
    channels: usize,
    x: &Vec<T>,
    padded: Ghost<nat>,
    calc: &Calc<T, F>,
) -> (r: Result<(Vec<T>, usize, usize), InferError>)
    requires
        calc.works(),
        weights.usable(),
        n == used_blocks(weights.blocks@.len()),
        k < n + 3,
        frames == weights.frames_at(padded@, k - 1),
        channels == weights.channels_at(k - 1),
        padded@ <= usize::MAX,
        weights.leads_to(before_work(k as int, n as int)),
    ensures
        match r {
            Ok(p) => {
                &&& weights.leads_to(before_work(k + 1, n as int))
                &&& weights.work_does(padded@, k as int, *calc, x@, Ok(p.0@))
                &&& p.1 == weights.frames_at(padded@, k as int)
                &&& p.2 == weights.channels_at(k as int)
            },
            Err(e) => weights.work_does(padded@, k as int, *calc, x@, Err(e@)),
        },
{
    reveal(CodecEncoderValues::work_does);
    if k == 0 {
        let spec = Conv1dFrameMajorSpec { frames, in_ch: 1, out_ch: 64, stride: 1, dilation: 1 };
        return match causal_conv_1d_frame_major(
            x.as_slice(),
            spec,
            weights.entry_conv_weight.as_slice(),
            weights.entry_conv_bias.as_slice(),
            calc,
        ) {
            Err(e) => Err(e),
            Ok(v) => Ok((v, frames, 64)),
        };
    }
    if k <= n {
        let stride: usize = rate_of(k - 1);
        assert(weights.blocks@[k - 1].usable(
            channels_before(weights.blocks@, k - 1),
            encoder_rate(k - 1),
        ));
        let m = forward_codec_encoder_block(
            x.as_slice(),
            frames,
            channels,
            stride,
            &weights.blocks[k - 1],
            calc,
        );
        assert(weights.blocks@[k - 1].does(
            x@,
            encoder_frames(padded@, (k - 1) as nat) as usize,
            channels_before(weights.blocks@, k - 1),
            encoder_rate(k - 1),
            *calc,
            outcome(m),
        ));
        let v = match m {
            Err(e) => {
                return Err(e);
            },
            Ok(v) => v,
        };
        let next: usize = match encoder_downsample_output_frames(frames, stride) {
            Err(e) => {
                return Err(e);
            },
            Ok(f) => f,
        };
        let out: usize = match encoder_block_output_channels(weights.blocks[k - 1].index) {
            Err(e) => {
                assert(false);
                return Err(e);
            },
            Ok(c) => c,
        };
        return Ok((v, next, out));
    }
    if k == n + 1 {
        return match snake_activation_frame_major(
            x.as_slice(),
            frames,
            channels,
            weights.tail_snake_alpha.as_slice(),
            calc,
        ) {
            Err(e) => Err(e),
            Ok(v) => Ok((v, frames, channels)),
        };
    }
    let spec = Conv1dFrameMajorSpec {
        frames,
        in_ch: channels,
        out_ch: 1024,
        stride: 1,
        dilation: 1,
    };
    match causal_conv_1d_frame_major(
        x.as_slice(),
        spec,
        weights.output_conv_weight.as_slice(),
        weights.output_conv_bias.as_slice(),
        calc,
    ) {
        Err(e) => Err(e),
        Ok(v) => Ok((v, frames, 1024)),
    }
}

fn name_place<T>(weights: &CodecEncoderValues<T>, k: usize, n: usize) -> (r: String)
    requires
        n == used_blocks(weights.blocks@.len()),
        k < n + 3,
    ensures
        r@ == place_name(weights.blocks@, k as int),
{
    if k == 0 {
        String::from_str("entry_conv")
    } else if k <= n {
        let digits = dec_usize(weights.blocks[k - 1].index);
        String::from_str("encoder_block_").concat(digits.as_str())
    } else if k == n + 1 {
        String::from_str("tail_snake")
    } else {
        String::from_str("output_conv")
    }
}

fn encode_audio<T: Copy, F: Fn(Op, T, T, T) -> T>(
    audio: &[T],
    weights: &CodecEncoderValues<T>,
    collect: bool,
    calc: &Calc<T, F>,
) -> (r: Result<(CodecEncoderFrontendResult<T>, Vec<CodecEncoderFrontendCheckpoint<T>>), InferError>)
    requires
        calc.works(),
        weights.usable(),
    ensures
        match r {
            Ok(v) => {
                &&& encoder_does(audio@, *weights, collect, *calc, Ok(v.0.hidden@))
                &&& v.0.counts(audio@.len(), weights.blocks@.len())
                &&& collect ==> is_encoder_trace(audio@, *weights, *calc, v.0.hidden@, v.1@)
            },
            Err(e) => encoder_does(audio@, *weights, collect, *calc, Err(e@)),
        },
{
    let samples: usize = audio.len();
    if samples as u64 > u32::MAX as u64 {
        return Err(InferError::text("encoder input sample count overflows u32"));
    }
    let padded: usize = match pad_sample_count(samples, CODEC_FRAME_LENGTH) {
        Err(e) => {
            return Err(e);
        },
        Ok(n) => n,
    };
    proof {
        if samples > 0 {
            crate::codec_blocks::padding_is_least(samples as nat, 2048, 0);
        }
    }
    let n: usize = if weights.blocks.len() < 4 {
        weights.blocks.len()
    } else {
        4
    };
    let mut current = pad_audio(audio, padded, calc.zero);
    let ghost start = current@;
    let ghost steps = weights.steps(padded as nat, collect, *calc);
    let ghost mut trace: Seq<Result<Seq<T>, ErrorView>> = seq![Ok(start)];
    let mut checkpoints: Vec<CodecEncoderFrontendCheckpoint<T>> = Vec::new();
    let mut frames: usize = padded;
    let mut channels: usize = 64;
    let mut k: usize = 0;
    assert(follows(steps, start, trace));
    while k < n + 3
        invariant
            k <= n + 3,
            n == used_blocks(weights.blocks@.len()),
            n <= 4,
            calc.works(),
            weights.usable(),
            audio_error(audio@.len()) is None,
            padded == padded_count(audio@.len(), 2048)->Ok_0,
            start == with_zeros(audio@, padded as nat, calc.zero),
            steps == weights.steps(padded as nat, collect, *calc),
            follows(steps, start, trace),
            trace.len() == 2 * k + 1,
            trace.last() == Ok::<Seq<T>, ErrorView>(current@),
            frames == weights.frames_at(padded as nat, k - 1),
            channels == weights.channels_at(k - 1),
            weights.leads_to(before_work(k as int, n as int)),
            collect ==> checkpoints@.len() == k,
            collect ==> are_checkpoints(*weights, padded as nat, trace, checkpoints@),
        decreases n + 3 - k,
    {
        let ghost before = trace;
        let ghost kept = checkpoints@;
        let (next, f, c) = match encoder_work(
            weights,
            k,
            n,
            frames,
            channels,
            &current,
            Ghost(padded as nat),
            calc,
        ) {
            Err(e) => {
                proof {
                    lemma_work_step(
                        *weights,
                        padded as nat,
                        collect,
                        *calc,
                        k as int,
                        current@,
                        Err(e@),
                    );
                    lemma_trace_fails(steps, start, trace, current@, e@);
                    assert(flows(steps, start, Err(e@)));
                }
                return Err(e);
            },
            Ok(v) => v,
        };
        proof {
            lemma_work_step(
                *weights,
                padded as nat,
                collect,
                *calc,
                k as int,
                current@,
                Ok(next@),
            );
            lemma_trace_one(steps, start, trace, current@, Ok(next@));
            trace = trace.push(Ok(next@));
        }
        frames = f;
        channels = c;
        if collect {
            match validate_frame_major_len("encoder checkpoint", next.len(), frames, channels) {
                Err(e) => {
                    proof {
                        lemma_check_step(
                            *weights,
                            padded as nat,
                            collect,
                            *calc,
                            k as int,
                            next@,
                            Err(e@),
                        );
                        lemma_trace_fails(steps, start, trace, next@, e@);
                        assert(flows(steps, start, Err(e@)));
                    }
                    return Err(e);
                },
                Ok(_) => {},
            }
            let copy = slice_to_vec(next.as_slice());
            let name = name_place(weights, k, n);
            checkpoints.push(CodecEncoderFrontendCheckpoint { name, frames, channels, hidden: copy });
        }
        proof {
            lemma_check_step(
                *weights,
                padded as nat,
                collect,
                *calc,
                k as int,
                next@,
                Ok(next@),
            );
            lemma_trace_one(steps, start, trace, next@, Ok(next@));
            trace = trace.push(Ok(next@));
            assert(trace.take(before.len() as int) =~= before);
            if collect {
                assert(checkpoints@.drop_last() =~= kept);
                lemma_checkpoints_grow(
                    *weights,
                    padded as nat,
                    before,
                    trace,
                    kept,
                    checkpoints@,
                );
            }
        }
        current = next;
        k = k + 1;
    }
    proof {
        assert(flows(steps, start, Ok(current@)));
    }
    if frames as u64 > u32::MAX as u64 {
        return Err(InferError::text("encoder output_frames overflows u32"));
    }
    if padded as u64 > u32::MAX as u64 {
        return Err(InferError::text("encoder padded_samples overflows u32"));
    }
    assert(collect ==> follows(weights.steps(padded as nat, true, *calc), start, trace));
    Ok(
        (
            CodecEncoderFrontendResult {
                input_samples: samples as u32,
                padded_samples: padded as u32,
                output_frames: frames as u32,
                hidden_dim: 1024,
                hidden: current,
            },
            checkpoints,
        ),
    )
}

proof fn lemma_work_step<T: Copy, F: Fn(Op, T, T, T) -> T>(
    w: CodecEncoderValues<T>,
    padded: nat,
    collect: bool,
    calc: Calc<T, F>,
    k: int,
    x: Seq<T>,
    r: Result<Seq<T>, ErrorView>,
)
    requires
        0 <= k < used_blocks(w.blocks@.len()) + 3,
        w.work_does(padded, k, calc, x, r),
    ensures
        w.steps(padded, collect, calc)[2 * k](x, r),
{
    assert((2 * k) % 2 == 0 && (2 * k) / 2 == k);
}

proof fn lemma_check_step<T: Copy, F: Fn(Op, T, T, T) -> T>(
    w: CodecEncoderValues<T>,
    padded: nat,
    collect: bool,
    calc: Calc<T, F>,
    k: int,
    x: Seq<T>,
    r: Result<Seq<T>, ErrorView>,
)
    requires
        0 <= k < used_blocks(w.blocks@.len()) + 3,
        w.check_does(padded, k, collect, x, r),
    ensures
        w.steps(padded, collect, calc)[2 * k + 1](x, r),
{
    assert((2 * k + 1) % 2 == 1 && (2 * k + 1) / 2 == k);
}

proof fn lemma_checkpoints_grow<T: Copy>(
    w: CodecEncoderValues<T>,
    padded: nat,
    before: Seq<Result<Seq<T>, ErrorView>>,
    trace: Seq<Result<Seq<T>, ErrorView>>,
    kept: Seq<CodecEncoderFrontendCheckpoint<T>>,
    c: Seq<CodecEncoderFrontendCheckpoint<T>>,
)
    requires
        are_checkpoints(w, padded, before, kept),
        before.len() == 2 * kept.len() + 1,
        trace.len() == before.len() + 2,
        trace.take(before.len() as int) == before,
        c.len() == kept.len() + 1,
        c.drop_last() == kept,
        c.last().name@ == place_name(w.blocks@, kept.len() as int),
        c.last().frames == w.frames_at(padded, kept.len() as int),
        c.last().channels == w.channels_at(kept.len() as int),
        trace.last() == Ok::<Seq<T>, ErrorView>(c.last().hidden@),
    ensures
        are_checkpoints(w, padded, trace, c),
{
    assert forall|j: int| 0 <= j < c.len() implies {
        &&& (#[trigger] c[j]).name@ == place_name(w.blocks@, j)
        &&& c[j].frames == w.frames_at(padded, j)
        &&& c[j].channels == w.channels_at(j)
        &&& trace[2 * j + 2] == Ok::<Seq<T>, ErrorView>(c[j].hidden@)
    } by {
        if j < kept.len() {
            assert(c[j] == kept[j]);
            assert(trace[2 * j + 2] == before[2 * j + 2]);
        }
    }
}

proof fn lemma_trace_one<T>(
    steps: Seq<spec_fn(Seq<T>, Result<Seq<T>, ErrorView>) -> bool>,
    x: Seq<T>,
    trace: Seq<Result<Seq<T>, ErrorView>>,
    v: Seq<T>,
    r: Result<Seq<T>, ErrorView>,
)
    requires
        follows(steps, x, trace),
        trace.len() <= steps.len(),
        trace.last() == Ok::<Seq<T>, ErrorView>(v),
        steps[trace.len() - 1](v, r),
    ensures
        follows(steps, x, trace.push(r)),
{
    let longer = trace.push(r);
    assert forall|k: int| 0 <= k < longer.len() - 1 implies match #[trigger] longer[k] {
        Ok(u) => steps[k](u, longer[k + 1]),
        Err(e) => longer[k + 1] == Err::<Seq<T>, ErrorView>(e),
    } by {
        assert(longer[k] == trace[k]);
        if k < trace.len() - 1 {
            assert(longer[k + 1] == trace[k + 1]);
        }
    }
}

proof fn lemma_trace_fails<T>(
    steps: Seq<spec_fn(Seq<T>, Result<Seq<T>, ErrorView>) -> bool>,
    x: Seq<T>,
    trace: Seq<Result<Seq<T>, ErrorView>>,
    v: Seq<T>,
    e: ErrorView,
)
    requires
        follows(steps, x, trace),
        trace.len() <= steps.len(),
        trace.last() == Ok::<Seq<T>, ErrorView>(v),
        steps[trace.len() - 1](v, Err(e)),
    ensures
        flows(steps, x, Err(e)),
{
    assert(reaches(steps, x, trace.len() - 1, Ok(v)));
    lemma_step(steps, x, trace.len() - 1, v, Err(e));
}

} // verus!
