//! Blocks of the codec: residual units, and stages that change the frame rate.
use crate::codec_weights::{CodecResidualUnitValues, CodecStageValues};
use crate::conv::{
    add_residual, frames_error, is_mapped, layer_norm_affine_frame_major, layer_norm_does,
    linear_bias_frame_major, linear_frames_does, map_all, scale_frame_major_channels,
    scale_frames_does, snake_activation_frame_major, snake_does, sum_does, validate_frame_major_len,
};
use crate::convolve::{causal_conv_1d_frame_major, conv_does, Conv1dFrameMajorSpec};
use crate::error::{infer_outcome, message, ErrorView, InferError};
use crate::flow::{flows, lemma_start, lemma_step, outcome};
use crate::numeric::{Calc, Op};
use crate::text::{dec, dec_usize};
use crate::transpose::{
    causal_conv_transpose_1d, depthwise_causal_conv1d, depthwise_does, spread_does,
    ConvTranspose1dSpec,
};
use vstd::prelude::*;
use vstd::string::*;

verus! {

// ---------------------------------------------------------------------
// Counts of frames and samples
// ---------------------------------------------------------------------

/// How many frames are left when the frame rate is lowered by a stride, counting a part of a
/// stride as a whole one.
pub open spec fn frames_after(frames: nat, stride: nat) -> Result<usize, ErrorView> {
    if stride == 0 {
        Err(message("encoder downsample stride must be non-zero"@))
    } else if frames + stride - 1 > usize::MAX {
        Err(message("encoder downsample frame count overflow"@))
    } else {
        Ok(((frames + stride - 1) / (stride as int)) as usize)
    }
}

/// How many frames are left when the frame rate is lowered by a stride.
pub fn encoder_downsample_output_frames(frames: usize, stride: usize) -> (r: Result<
    usize,
    InferError,
>)
    ensures
        infer_outcome(r, frames_after(frames as nat, stride as nat)),
{
    if stride == 0 {
        return Err(InferError::text("encoder downsample stride must be non-zero"));
    }
    match frames.checked_add(stride - 1) {
        None => Err(InferError::text("encoder downsample frame count overflow")),
        Some(n) => Ok(n / stride),
    }
}

/// How many channels come out of an encoder block.
pub open spec fn encoder_channels(index: usize) -> Result<usize, ErrorView> {
    if index < 5 {
        Ok(crate::codec_registry::channels_after(index) as usize)
    } else {
        Err(message("invalid encoder block index "@ + dec(index as nat)))
    }
}

/// How many channels come out of an encoder block.
pub fn encoder_block_output_channels(index: usize) -> (r: Result<usize, InferError>)
    ensures
        infer_outcome(r, encoder_channels(index)),
{
    if index < 5 {
        Ok(crate::codec_registry::block_channels(index) as usize)
    } else {
        let a = dec_usize(index);
        Err(
            InferError::Message(
                String::from_str("invalid encoder block index ").concat(a.as_str()),
            ),
        )
    }
}

/// How many samples fill whole frames; at least one frame.
pub open spec fn padded_count(samples: nat, frame_length: nat) -> Result<usize, ErrorView> {
    if frame_length == 0 {
        Err(message("codec frame_length must be non-zero"@))
    } else if samples == 0 {
        Ok(frame_length as usize)
    } else if samples + frame_length - 1 > usize::MAX {
        Err(message("codec padded sample count overflow"@))
    } else {
        Ok((((samples + frame_length - 1) / (frame_length as int)) * frame_length) as usize)
    }
}

/// How many samples fill whole frames.
pub fn pad_sample_count(samples: usize, frame_length: usize) -> (r: Result<usize, InferError>)
    ensures
        infer_outcome(r, padded_count(samples as nat, frame_length as nat)),
{
    if frame_length == 0 {
        return Err(InferError::text("codec frame_length must be non-zero"));
    }
    if samples == 0 {
        return Ok(frame_length);
    }
    match samples.checked_add(frame_length - 1) {
        None => Err(InferError::text("codec padded sample count overflow")),
        Some(n) => {
            proof {
                let q = n as int / frame_length as int;
                vstd::arithmetic::div_mod::lemma_fundamental_div_mod(
                    n as int,
                    frame_length as int,
                );
                vstd::arithmetic::div_mod::lemma_mod_bound(n as int, frame_length as int);
                vstd::arithmetic::mul::lemma_mul_is_commutative(q, frame_length as int);
                vstd::arithmetic::mul::lemma_mul_nonnegative(q, frame_length as int);
            }
            Ok((n / frame_length) * frame_length)
        },
    }
}

/// The padded count is the least multiple of the frame length that holds all samples.
pub proof fn padding_is_least(samples: nat, frame_length: nat, other: nat)
    requires
        padded_count(samples, frame_length) is Ok,
        samples > 0,
    ensures
        padded_count(samples, frame_length)->Ok_0 as nat % frame_length == 0,
        padded_count(samples, frame_length)->Ok_0 >= samples,
        other % frame_length == 0 && other >= samples ==> padded_count(
            samples,
            frame_length,
        )->Ok_0 <= other,
{
    let n = samples + frame_length - 1;
    let d = frame_length as int;
    let q = n / d;
    vstd::arithmetic::div_mod::lemma_fundamental_div_mod(n, d);
    vstd::arithmetic::div_mod::lemma_mod_bound(n, d);
    vstd::arithmetic::mul::lemma_mul_is_commutative(q, d);
    vstd::arithmetic::div_mod::lemma_div_pos_is_pos(n, d);
    vstd::arithmetic::div_mod::lemma_mod_multiples_basic(q, d);
    vstd::arithmetic::mul::lemma_mul_nonnegative(q, d);
    if other % frame_length == 0 && other >= samples {
        let k = other as int / d;
        vstd::arithmetic::div_mod::lemma_fundamental_div_mod(other as int, d);
        vstd::arithmetic::mul::lemma_mul_is_commutative(k, d);
        if k < q {
            crate::arith::lemma_rows_monotone_any(k + 1, q, d);
            crate::arith::lemma_next_row(k, d);
        } else {
            crate::arith::lemma_rows_monotone_any(q, k, d);
        }
    }
}

/// How many frames a stage leaves that lowers the frame rate to the half.
pub open spec fn half_frames(frames: nat) -> Result<usize, ErrorView> {
    if frames < 2 {
        Err(message("codec downsample requires at least 2 frames, got "@ + dec(frames)))
    } else {
        Ok(((frames - 2) / 2 + 1) as usize)
    }
}

/// How many frames a stage leaves that lowers the frame rate to the half.
pub fn downsample_output_frames(frames: usize) -> (r: Result<usize, InferError>)
    ensures
        infer_outcome(r, half_frames(frames as nat)),
{
    if frames < 2 {
        let a = dec_usize(frames);
        return Err(
            InferError::Message(
                String::from_str("codec downsample requires at least 2 frames, got ").concat(
                    a.as_str(),
                ),
            ),
        );
    }
    Ok((frames - 2) / 2 + 1)
}

/// How many channels come out of a decoder block.
pub open spec fn decoder_channels(index: usize) -> Result<usize, ErrorView> {
    if index == 1 {
        Ok(768)
    } else if index == 2 {
        Ok(384)
    } else if index == 3 {
        Ok(192)
    } else if index == 4 {
        Ok(96)
    } else {
        Err(message("unknown decoder block index "@ + dec(index as nat)))
    }
}

/// How many channels come out of a decoder block.
pub fn block_output_channels(block_index: usize) -> (r: Result<usize, InferError>)
    ensures
        infer_outcome(r, decoder_channels(block_index)),
{
    if block_index == 1 {
        Ok(768)
    } else if block_index == 2 {
        Ok(384)
    } else if block_index == 3 {
        Ok(192)
    } else if block_index == 4 {
        Ok(96)
    } else {
        let a = dec_usize(block_index);
        Err(
            InferError::Message(
                String::from_str("unknown decoder block index ").concat(a.as_str()),
            ),
        )
    }
}

// ---------------------------------------------------------------------
// Residual units
// ---------------------------------------------------------------------

/// A convolution that keeps frames and channels.
pub open spec fn keeping_conv(frames: usize, channels: usize, dilation: usize)
    -> Conv1dFrameMajorSpec {
    Conv1dFrameMajorSpec { frames, in_ch: channels, out_ch: channels, stride: 1, dilation }
}

impl<T: Copy> CodecResidualUnitValues<T> {
    /// Whether both kernels have a tap at least.
    pub open spec fn usable(&self, channels: usize, dilation: usize) -> bool {
        &&& keeping_conv(0, channels, dilation).usable(self.conv0_weight@.len())
        &&& keeping_conv(0, channels, 1).usable(self.conv1_weight@.len())
    }

    /// The steps of a residual unit.
    pub open spec fn steps<F: Fn(Op, T, T, T) -> T>(
        &self,
        input: Seq<T>,
        frames: usize,
        channels: usize,
        dilation: usize,
        calc: Calc<T, F>,
    ) -> Seq<spec_fn(Seq<T>, Result<Seq<T>, ErrorView>) -> bool> {
        seq![
            |x: Seq<T>, r: Result<Seq<T>, ErrorView>|
                snake_does(x, frames as nat, channels as nat, self.snake0_alpha@, calc, r),
            |x: Seq<T>, r: Result<Seq<T>, ErrorView>|
                conv_does(
                    keeping_conv(frames, channels, dilation),
                    x,
                    self.conv0_weight@,
                    self.conv0_bias@,
                    calc,
                    r,
                ),
            |x: Seq<T>, r: Result<Seq<T>, ErrorView>|
                snake_does(x, frames as nat, channels as nat, self.snake1_alpha@, calc, r),
            |x: Seq<T>, r: Result<Seq<T>, ErrorView>|
                conv_does(
                    keeping_conv(frames, channels, 1),
                    x,
                    self.conv1_weight@,
                    self.conv1_bias@,
                    calc,
                    r,
                ),
            |x: Seq<T>, r: Result<Seq<T>, ErrorView>|
                sum_does("frame-major residual"@, input, x, calc, r),
        ]
    }

    /// What a residual unit does.
    pub open spec fn does<F: Fn(Op, T, T, T) -> T>(
        &self,
        input: Seq<T>,
        frames: usize,
        channels: usize,
        dilation: usize,
        calc: Calc<T, F>,
        r: Result<Seq<T>, ErrorView>,
    ) -> bool {
        match frames_error("residual unit input"@, input.len(), frames as nat, channels as nat) {
            Some(e) => r == Err::<Seq<T>, ErrorView>(e),
            None => flows(self.steps(input, frames, channels, dilation, calc), input, r),
        }
    }
}

/// Lets a residual unit work on frames.
pub fn forward_codec_residual_unit<T: Copy, F: Fn(Op, T, T, T) -> T>(
    input: &[T],
    frames: usize,
    channels: usize,
    dilation: usize,
    weights: &CodecResidualUnitValues<T>,
    calc: &Calc<T, F>,
) -> (r: Result<Vec<T>, InferError>)
    requires
        calc.works(),
        weights.usable(channels, dilation),
    ensures
        weights.does(input@, frames, channels, dilation, *calc, outcome(r)),
{
    match validate_frame_major_len("residual unit input", input.len(), frames, channels) {
        Err(e) => {
            return Err(e);
        },
        Ok(_) => {},
    }
    let ghost steps = weights.steps(input@, frames, channels, dilation, *calc);
    proof {
        lemma_start(steps, input@);
    }
    let r0 = snake_activation_frame_major(
        input,
        frames,
        channels,
        weights.snake0_alpha.as_slice(),
        calc,
    );
    proof {
        assert(steps[0](input@, outcome(r0)));
        lemma_step(steps, input@, 0, input@, outcome(r0));
    }
    let x0 = match r0 {
        Err(e) => {
            return Err(e);
        },
        Ok(v) => v,
    };
    let first = Conv1dFrameMajorSpec {
        frames,
        in_ch: channels,
        out_ch: channels,
        stride: 1,
        dilation,
    };
    let r1 = causal_conv_1d_frame_major(
        x0.as_slice(),
        first,
        weights.conv0_weight.as_slice(),
        weights.conv0_bias.as_slice(),
        calc,
    );
    proof {
        assert(steps[1](x0@, outcome(r1)));
        lemma_step(steps, input@, 1, x0@, outcome(r1));
    }
    let x1 = match r1 {
        Err(e) => {
            return Err(e);
        },
        Ok(v) => v,
    };
    let r2 = snake_activation_frame_major(
        x1.as_slice(),
        frames,
        channels,
        weights.snake1_alpha.as_slice(),
        calc,
    );
    proof {
        assert(steps[2](x1@, outcome(r2)));
        lemma_step(steps, input@, 2, x1@, outcome(r2));
    }
    let x2 = match r2 {
        Err(e) => {
            return Err(e);
        },
        Ok(v) => v,
    };
    let second = Conv1dFrameMajorSpec {
        frames,
        in_ch: channels,
        out_ch: channels,
        stride: 1,
        dilation: 1,
    };
    let r3 = causal_conv_1d_frame_major(
        x2.as_slice(),
        second,
        weights.conv1_weight.as_slice(),
        weights.conv1_bias.as_slice(),
        calc,
    );
    proof {
        assert(steps[3](x2@, outcome(r3)));
        lemma_step(steps, input@, 3, x2@, outcome(r3));
    }
    let x3 = match r3 {
        Err(e) => {
            return Err(e);
        },
        Ok(v) => v,
    };
    let r4 = add_residual("frame-major residual", input, x3.as_slice(), calc);
    proof {
        assert(steps[4](x3@, outcome(r4)));
        lemma_step(steps, input@, 4, x3@, outcome(r4));
    }
    r4
}

// ---------------------------------------------------------------------
// Stages that change the frame rate
// ---------------------------------------------------------------------

impl<T: Copy> CodecStageValues<T> {
    /// The steps of the block that follows the change of the frame rate.
    pub open spec fn steps<F: Fn(Op, T, T, T) -> T>(
        &self,
        input: Seq<T>,
        frames: usize,
        calc: Calc<T, F>,
    ) -> Seq<spec_fn(Seq<T>, Result<Seq<T>, ErrorView>) -> bool> {
        seq![
            |x: Seq<T>, r: Result<Seq<T>, ErrorView>|
                depthwise_does(
                    x,
                    frames as nat,
                    1024,
                    7,
                    self.dwconv_weight@,
                    self.dwconv_bias@,
                    calc,
                    r,
                ),
            |x: Seq<T>, r: Result<Seq<T>, ErrorView>|
                layer_norm_does(
                    x,
                    frames as nat,
                    1024,
                    self.norm_weight@,
                    self.norm_bias@,
                    0x3586_37bd,
                    calc,
                    r,
                ),
            |x: Seq<T>, r: Result<Seq<T>, ErrorView>|
                linear_frames_does(
                    x,
                    frames as nat,
                    1024,
                    4096,
                    self.pwconv1_weight@,
                    self.pwconv1_bias@,
                    calc,
                    r,
                ),
            |x: Seq<T>, r: Result<Seq<T>, ErrorView>|
                r matches Ok(out) && is_mapped(x, Op::Gelu, calc, out),
            |x: Seq<T>, r: Result<Seq<T>, ErrorView>|
                linear_frames_does(
                    x,
                    frames as nat,
                    4096,
                    1024,
                    self.pwconv2_weight@,
                    self.pwconv2_bias@,
                    calc,
                    r,
                ),
            |x: Seq<T>, r: Result<Seq<T>, ErrorView>|
                scale_frames_does(x, 1024, self.convnext_gamma@, calc, r),
            |x: Seq<T>, r: Result<Seq<T>, ErrorView>|
                sum_does("frame-major residual"@, input, x, calc, r),
        ]
    }

    /// What the block does that follows the change of the frame rate. `name` is what its input is
    /// called where its length is wrong.
    pub open spec fn block_does<F: Fn(Op, T, T, T) -> T>(
        &self,
        name: Seq<char>,
        input: Seq<T>,
        frames: usize,
        calc: Calc<T, F>,
        r: Result<Seq<T>, ErrorView>,
    ) -> bool {
        match frames_error(name, input.len(), frames as nat, 1024) {
            Some(e) => r == Err::<Seq<T>, ErrorView>(e),
            None => flows(self.steps(input, frames, calc), input, r),
        }
    }

    /// The sizes of the convolution that lowers the frame rate to the half.
    pub open spec fn halving(frames: usize) -> Conv1dFrameMajorSpec {
        Conv1dFrameMajorSpec { frames, in_ch: 1024, out_ch: 1024, stride: 2, dilation: 1 }
    }

    /// The sizes of the convolution that doubles the frame rate.
    pub open spec fn doubling(frames: usize) -> ConvTranspose1dSpec {
        ConvTranspose1dSpec { frames, in_ch: 1024, out_ch: 1024, stride: 2, crop_right: 0 }
    }

    /// The steps of a stage that lowers the frame rate to the half.
    pub open spec fn down_steps<F: Fn(Op, T, T, T) -> T>(
        &self,
        frames: usize,
        calc: Calc<T, F>,
    ) -> Seq<spec_fn(Seq<T>, Result<Seq<T>, ErrorView>) -> bool> {
        seq![
            |x: Seq<T>, r: Result<Seq<T>, ErrorView>|
                conv_does(
                    CodecStageValues::<T>::halving(frames),
                    x,
                    self.conv_weight@,
                    self.conv_bias@,
                    calc,
                    r,
                ),
            |x: Seq<T>, r: Result<Seq<T>, ErrorView>|
                match half_frames(frames as nat) {
                    Err(e) => r == Err::<Seq<T>, ErrorView>(e),
                    Ok(n) => self.block_does(
                        "codec downsample convnext input"@,
                        x,
                        n,
                        calc,
                        r,
                    ),
                },
        ]
    }

    /// What a stage does that lowers the frame rate to the half.
    pub open spec fn down_does<F: Fn(Op, T, T, T) -> T>(
        &self,
        input: Seq<T>,
        frames: usize,
        calc: Calc<T, F>,
        r: Result<Seq<T>, ErrorView>,
    ) -> bool {
        match frames_error("codec downsample stage input"@, input.len(), frames as nat, 1024) {
            Some(e) => r == Err::<Seq<T>, ErrorView>(e),
            None => flows(self.down_steps(frames, calc), input, r),
        }
    }

    /// The steps of a stage that doubles the frame rate.
    pub open spec fn up_steps<F: Fn(Op, T, T, T) -> T>(
        &self,
        frames: usize,
        calc: Calc<T, F>,
    ) -> Seq<spec_fn(Seq<T>, Result<Seq<T>, ErrorView>) -> bool> {
        seq![
            |x: Seq<T>, r: Result<Seq<T>, ErrorView>|
                spread_does(
                    CodecStageValues::<T>::doubling(frames),
                    x,
                    self.conv_weight@,
                    self.conv_bias@,
                    calc,
                    r,
                ),
            |x: Seq<T>, r: Result<Seq<T>, ErrorView>|
                self.block_does("codec convnext input"@, x, (frames * 2) as usize, calc, r),
        ]
    }

    /// What a stage does that doubles the frame rate.
    pub open spec fn up_does<F: Fn(Op, T, T, T) -> T>(
        &self,
        input: Seq<T>,
        frames: usize,
        calc: Calc<T, F>,
        r: Result<Seq<T>, ErrorView>,
    ) -> bool {
        match frames_error("codec upsample stage input"@, input.len(), frames as nat, 1024) {
            Some(e) => r == Err::<Seq<T>, ErrorView>(e),
            None => flows(self.up_steps(frames, calc), input, r),
        }
    }

    /// Whether the kernel that lowers the frame rate has a tap at least.
    pub open spec fn halvable(&self) -> bool {
        CodecStageValues::<T>::halving(0).usable(self.conv_weight@.len())
    }
}

/// Lets the block work that follows the change of the frame rate.
pub fn forward_codec_convnext_block<T: Copy, F: Fn(Op, T, T, T) -> T>(
    name: &str,
    input: &[T],
    frames: usize,
    weights: &CodecStageValues<T>,
    calc: &Calc<T, F>,
) -> (r: Result<Vec<T>, InferError>)
    requires
        calc.works(),
    ensures
        weights.block_does(name@, input@, frames, *calc, outcome(r)),
{
    match validate_frame_major_len(name, input.len(), frames, 1024) {
        Err(e) => {
            return Err(e);
        },
        Ok(_) => {},
    }
    let ghost steps = weights.steps(input@, frames, *calc);
    proof {
        lemma_start(steps, input@);
    }
    let r0 = depthwise_causal_conv1d(
        input,
        frames,
        1024,
        7,
        weights.dwconv_weight.as_slice(),
        weights.dwconv_bias.as_slice(),
        calc,
    );
    proof {
        assert(steps[0](input@, outcome(r0)));
        lemma_step(steps, input@, 0, input@, outcome(r0));
    }
    let x0 = match r0 {
        Err(e) => {
            return Err(e);
        },
        Ok(v) => v,
    };
    let r1 = layer_norm_affine_frame_major(
        x0.as_slice(),
        frames,
        1024,
        weights.norm_weight.as_slice(),
        weights.norm_bias.as_slice(),
        0x3586_37bd,
        calc,
    );
    proof {
        assert(steps[1](x0@, outcome(r1)));
        lemma_step(steps, input@, 1, x0@, outcome(r1));
    }
    let x1 = match r1 {
        Err(e) => {
            return Err(e);
        },
        Ok(v) => v,
    };
    let r2 = linear_bias_frame_major(
        x1.as_slice(),
        frames,
        1024,
        4096,
        weights.pwconv1_weight.as_slice(),
        weights.pwconv1_bias.as_slice(),
        calc,
    );
    proof {
        assert(steps[2](x1@, outcome(r2)));
        lemma_step(steps, input@, 2, x1@, outcome(r2));
    }
    let x2 = match r2 {
        Err(e) => {
            return Err(e);
        },
        Ok(v) => v,
    };
    let x3 = map_all(x2.as_slice(), Op::Gelu, calc);
    proof {
        assert(steps[3](x2@, Ok(x3@)));
        lemma_step(steps, input@, 3, x2@, Ok(x3@));
    }
    let r4 = linear_bias_frame_major(
        x3.as_slice(),
        frames,
        4096,
        1024,
        weights.pwconv2_weight.as_slice(),
        weights.pwconv2_bias.as_slice(),
        calc,
    );
    proof {
        assert(steps[4](x3@, outcome(r4)));
        lemma_step(steps, input@, 4, x3@, outcome(r4));
    }
    let x4 = match r4 {
        Err(e) => {
            return Err(e);
        },
        Ok(v) => v,
    };
    let r5 = scale_frame_major_channels(
        x4.as_slice(),
        1024,
        weights.convnext_gamma.as_slice(),
        calc,
    );
    proof {
        assert(steps[5](x4@, outcome(r5)));
        lemma_step(steps, input@, 5, x4@, outcome(r5));
    }
    let x5 = match r5 {
        Err(e) => {
            return Err(e);
        },
        Ok(v) => v,
    };
    let r6 = add_residual("frame-major residual", input, x5.as_slice(), calc);
    proof {
        assert(steps[6](x5@, outcome(r6)));
        lemma_step(steps, input@, 6, x5@, outcome(r6));
    }
    r6
}

/// Lets a stage work that lowers the frame rate to the half.
pub fn forward_codec_downsample_stage<T: Copy, F: Fn(Op, T, T, T) -> T>(
    input: &[T],
    frames: usize,
    weights: &CodecStageValues<T>,
    calc: &Calc<T, F>,
) -> (r: Result<Vec<T>, InferError>)
    requires
        calc.works(),
        weights.halvable(),
    ensures
        weights.down_does(input@, frames, *calc, outcome(r)),
{
    match validate_frame_major_len("codec downsample stage input", input.len(), frames, 1024) {
        Err(e) => {
            return Err(e);
        },
        Ok(_) => {},
    }
    let ghost steps = weights.down_steps(frames, *calc);
    proof {
        lemma_start(steps, input@);
    }
    let spec = Conv1dFrameMajorSpec { frames, in_ch: 1024, out_ch: 1024, stride: 2, dilation: 1 };
    let r0 = causal_conv_1d_frame_major(
        input,
        spec,
        weights.conv_weight.as_slice(),
        weights.conv_bias.as_slice(),
        calc,
    );
    proof {
        assert(steps[0](input@, outcome(r0)));
        lemma_step(steps, input@, 0, input@, outcome(r0));
    }
    let x0 = match r0 {
        Err(e) => {
            return Err(e);
        },
        Ok(v) => v,
    };
    let r1 = match downsample_output_frames(frames) {
        Err(e) => Err(e),
        Ok(n) => forward_codec_convnext_block(
            "codec downsample convnext input",
            x0.as_slice(),
            n,
            weights,
            calc,
        ),
    };
    proof {
        assert(steps[1](x0@, outcome(r1)));
        lemma_step(steps, input@, 1, x0@, outcome(r1));
    }
    r1
}

/// Lets a stage work that doubles the frame rate.
pub fn forward_codec_upsample_stage<T: Copy, F: Fn(Op, T, T, T) -> T>(
    input: &[T],
    frames: usize,
    weights: &CodecStageValues<T>,
    calc: &Calc<T, F>,
) -> (r: Result<Vec<T>, InferError>)
    requires
        calc.works(),
    ensures
        weights.up_does(input@, frames, *calc, outcome(r)),
        r is Ok ==> frames * 2 <= usize::MAX,
{
    match validate_frame_major_len("codec upsample stage input", input.len(), frames, 1024) {
        Err(e) => {
            return Err(e);
        },
        Ok(_) => {},
    }
    let ghost steps = weights.up_steps(frames, *calc);
    proof {
        lemma_start(steps, input@);
    }
    let spec = ConvTranspose1dSpec {
        frames,
        in_ch: 1024,
        out_ch: 1024,
        stride: 2,
        crop_right: 0,
    };
    let r0 = causal_conv_transpose_1d(
        input,
        spec,
        weights.conv_weight.as_slice(),
        weights.conv_bias.as_slice(),
        calc,
    );
    proof {
        assert(steps[0](input@, outcome(r0)));
        lemma_step(steps, input@, 0, input@, outcome(r0));
    }
    let x0 = match r0 {
        Err(e) => {
            return Err(e);
        },
        Ok(v) => v,
    };
    let r1 = forward_codec_convnext_block(
        "codec convnext input",
        x0.as_slice(),
        frames * 2,
        weights,
        calc,
    );
    proof {
        assert(steps[1](x0@, outcome(r1)));
        lemma_step(steps, input@, 1, x0@, outcome(r1));
    }
    r1
}

} // verus!
