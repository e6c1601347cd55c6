//! The codec's decoder.
use crate::codec_blocks::{block_output_channels, decoder_channels, forward_codec_residual_unit};
use crate::codec_coder_weights::{CodecDecoderBlockValues, CodecDecoderValues};
use crate::conv::{
    frames_error, is_mapped, map_all, snake_activation_frame_major, snake_does,
    validate_frame_major_len,
};
use crate::convolve::{
    causal_conv_1d_frame_major, conv_does, small_steps_keep_frames, Conv1dFrameMajorSpec,
};
use crate::error::{message, ErrorView, InferError};
use crate::flow::{flows, lemma_start, lemma_step, outcome, reaches};
use crate::numeric::{Calc, Op};
use crate::text::{dec, dec_usize};
use crate::transpose::{causal_conv_transpose_1d, spread_does, ConvTranspose1dSpec};
use vstd::prelude::*;
use vstd::string::*;

verus! {

// ---------------------------------------------------------------------
// Decoder blocks
// ---------------------------------------------------------------------

impl<T: Copy> CodecDecoderBlockValues<T> {
    /// The sizes of the convolution that raises the frame rate.
    pub open spec fn raising(&self, frames: usize, channels: usize, stride: usize)
        -> ConvTranspose1dSpec {
        ConvTranspose1dSpec {
            frames,
            in_ch: channels,
            out_ch: decoder_channels(self.index)->Ok_0,
            stride,
            crop_right: 0,
        }
    }

    /// Whether every kernel has a tap at least, and the stride moves on.
    pub open spec fn usable(&self, channels: usize, stride: usize) -> bool {
        let out = decoder_channels(self.index)->Ok_0;
        &&& 0 < channels
        &&& 0 < stride
        &&& decoder_channels(self.index) is Ok ==> {
            &&& channels * out <= usize::MAX
            &&& self.residual_1.usable(out, 1)
            &&& self.residual_2.usable(out, 3)
            &&& self.residual_3.usable(out, 9)
        }
    }

    /// The steps of a decoder block.
    pub open spec fn steps<F: Fn(Op, T, T, T) -> T>(
        &self,
        frames: usize,
        channels: usize,
        stride: usize,
        calc: Calc<T, F>,
    ) -> Seq<spec_fn(Seq<T>, Result<Seq<T>, ErrorView>) -> bool> {
        let out = decoder_channels(self.index)->Ok_0;
        let more = (frames * stride) as usize;
        seq![
            |x: Seq<T>, r: Result<Seq<T>, ErrorView>|
                snake_does(x, frames as nat, channels as nat, self.snake_alpha@, calc, r),
            |x: Seq<T>, r: Result<Seq<T>, ErrorView>|
                match decoder_channels(self.index) {
                    Err(e) => r == Err::<Seq<T>, ErrorView>(e),
                    Ok(_) => spread_does(
                        self.raising(frames, channels, stride),
                        x,
                        self.conv_transpose_weight@,
                        self.conv_transpose_bias@,
                        calc,
                        r,
                    ),
                },
            |x: Seq<T>, r: Result<Seq<T>, ErrorView>|
                self.residual_1.does(x, more, out, 1, calc, r),
            |x: Seq<T>, r: Result<Seq<T>, ErrorView>|
                self.residual_2.does(x, more, out, 3, calc, r),
            |x: Seq<T>, r: Result<Seq<T>, ErrorView>|
                self.residual_3.does(x, more, out, 9, calc, r),
        ]
    }

    /// What a decoder block does.
    pub open spec fn does<F: Fn(Op, T, T, T) -> T>(
        &self,
        input: Seq<T>,
        frames: usize,
        channels: usize,
        stride: usize,
        calc: Calc<T, F>,
        r: Result<Seq<T>, ErrorView>,
    ) -> bool {
        match frames_error("decoder block input"@, input.len(), frames as nat, channels as nat) {
            Some(e) => r == Err::<Seq<T>, ErrorView>(e),
            None => flows(self.steps(frames, channels, stride, calc), input, r),
        }
    }
}

/// Lets a decoder block work on frames.
pub fn forward_codec_decoder_block<T: Copy, F: Fn(Op, T, T, T) -> T>(
    input: &[T],
    frames: usize,
    channels: usize,
    stride: usize,
    weights: &CodecDecoderBlockValues<T>,
    calc: &Calc<T, F>,
) -> (r: Result<Vec<T>, InferError>)
    requires
        calc.works(),
        weights.usable(channels, stride),
    ensures
        weights.does(input@, frames, channels, stride, *calc, outcome(r)),
        r is Ok ==> decoder_channels(weights.index) is Ok && frames * stride <= usize::MAX,
{
    match validate_frame_major_len("decoder block input", input.len(), frames, channels) {
        Err(e) => {
            return Err(e);
        },
        Ok(_) => {},
    }
    let ghost steps = weights.steps(frames, channels, stride, *calc);
    proof {
        lemma_start(steps, input@);
    }
    let r0 = snake_activation_frame_major(
        input,
        frames,
        channels,
        weights.snake_alpha.as_slice(),
        calc,
    );
    proof {
        assert(steps[0](input@, outcome(r0)));
        lemma_step(steps, input@, 0, input@, outcome(r0));
    }
    let x0 = match r0 {
        Err(e) => {
            return Err(e);
        },
        Ok(v) => v,
    };
    let out_channels: usize = match block_output_channels(weights.index) {
        Err(e) => {
            proof {
                assert(steps[1](x0@, Err(e@)));
                lemma_step(steps, input@, 1, x0@, Err(e@));
            }
            return Err(e);
        },
        Ok(n) => n,
    };
    let spec = ConvTranspose1dSpec {
        frames,
        in_ch: channels,
        out_ch: out_channels,
        stride,
        crop_right: 0,
    };
    let r1 = causal_conv_transpose_1d(
        x0.as_slice(),
        spec,
        weights.conv_transpose_weight.as_slice(),
        weights.conv_transpose_bias.as_slice(),
        calc,
    );
    proof {
        assert(steps[1](x0@, outcome(r1)));
        lemma_step(steps, input@, 1, x0@, outcome(r1));
    }
    let x1 = match r1 {
        Err(e) => {
            return Err(e);
        },
        Ok(v) => v,
    };
    let more: usize = frames * stride;
    let r2 = forward_codec_residual_unit(
        x1.as_slice(),
        more,
        out_channels,
        1,
        &weights.residual_1,
        calc,
    );
    proof {
        assert(steps[2](x1@, outcome(r2)));
        lemma_step(steps, input@, 2, x1@, outcome(r2));
    }
    let x2 = match r2 {
        Err(e) => {
            return Err(e);
        },
        Ok(v) => v,
    };
    let r3 = forward_codec_residual_unit(
        x2.as_slice(),
        more,
        out_channels,
        3,
        &weights.residual_2,
        calc,
    );
    proof {
        assert(steps[3](x2@, outcome(r3)));
        lemma_step(steps, input@, 3, x2@, outcome(r3));
    }
    let x3 = match r3 {
        Err(e) => {
            return Err(e);
        },
        Ok(v) => v,
    };
    let r4 = forward_codec_residual_unit(
        x3.as_slice(),
        more,
        out_channels,
        9,
        &weights.residual_3,
        calc,
    );
    proof {
        assert(steps[4](x3@, outcome(r4)));
        lemma_step(steps, input@, 4, x3@, outcome(r4));
    }
    r4
}

// ---------------------------------------------------------------------
// The decoder
// ---------------------------------------------------------------------

/// By how much a decoder block raises the frame rate.
pub open spec fn decoder_rate(i: int) -> usize {
    if i < 2 {
        8
    } else if i == 2 {
        4
    } else {
        2
    }
}

fn rate_of(i: usize) -> (r: usize)
    ensures
        r == decoder_rate(i as int),
{
    if i < 2 {
        8
    } else if i == 2 {
        4
    } else {
        2
    }
}

/// How many frames there are before decoder block `i`.
pub open spec fn decoder_frames(frames: nat, i: nat) -> nat
    decreases i,
{
    if i == 0 {
        frames
    } else {
        decoder_frames(frames, (i - 1) as nat) * (decoder_rate(i - 1) as nat)
    }
}

/// How many channels there are before decoder block `i`.
pub open spec fn decoder_channels_before<T>(blocks: Seq<CodecDecoderBlockValues<T>>, i: int)
    -> usize {
    if i <= 0 {
        1536
    } else {
        decoder_channels(blocks[i - 1].index)->Ok_0
    }
}

/// How many blocks are used: one for each rate.
pub open spec fn used_decoder_blocks(count: nat) -> nat {
    if count < 4 {
        count
    } else {
        4
    }
}

/// The sizes of the convolution at the decoder's entry.
pub open spec fn decoder_entry_conv(frames: usize) -> Conv1dFrameMajorSpec {
    Conv1dFrameMajorSpec { frames, in_ch: 1024, out_ch: 1536, stride: 1, dilation: 1 }
}

/// The sizes of the convolution at the decoder's end.
pub open spec fn decoder_output_conv(frames: usize, channels: usize) -> Conv1dFrameMajorSpec {
    Conv1dFrameMajorSpec { frames, in_ch: channels, out_ch: 1, stride: 1, dilation: 1 }
}

/// What is wrong with the size of what the decoder is given, if anything.
pub open spec fn decoder_input_error(found: nat, frames: nat, width: usize) -> Option<ErrorView> {
    match frames_error("decoder input"@, found, frames, width as nat) {
        Some(e) => Some(e),
        None => if width != 1024 {
            Some(message("decoder expects latent dim 1024, got "@ + dec(width as nat)))
        } else {
            None
        },
    }
}

impl<T: Copy> CodecDecoderValues<T> {
    /// Whether every kernel has a tap at least.
    pub open spec fn usable(&self) -> bool {
        let n = used_decoder_blocks(self.blocks@.len()) as int;
        &&& decoder_entry_conv(0).usable(self.entry_conv_weight@.len())
        &&& forall|i: int|
            0 <= i < n && self.leads_to(i) ==> (#[trigger] self.blocks@[i]).usable(
                decoder_channels_before(self.blocks@, i),
                decoder_rate(i),
            )
        &&& self.leads_to(n) ==> decoder_output_conv(
            0,
            decoder_channels_before(self.blocks@, n),
        ).usable(self.output_conv_weight@.len())
    }

    /// Whether there is a block for each rate, and the last kernel is one that single precision can
    /// count the taps of.
    pub open spec fn has_all_blocks(&self) -> bool {
        self.blocks@.len() >= 4 && self.output_conv_weight@.len() < 0x100_0000
    }

    /// Whether all blocks before block `i` have an index that is known.
    pub open spec fn leads_to(&self, i: int) -> bool {
        forall|j: int| 0 <= j < i ==> decoder_channels((#[trigger] self.blocks@[j]).index) is Ok
    }

    /// What step `k` of the decoder does: the entry, the blocks, an activation, the output, and
    /// a bound on every sample.
    #[verifier::opaque]
    pub open spec fn step_does<F: Fn(Op, T, T, T) -> T>(
        &self,
        frames: nat,
        k: int,
        calc: Calc<T, F>,
        x: Seq<T>,
        r: Result<Seq<T>, ErrorView>,
    ) -> bool {
        let n = used_decoder_blocks(self.blocks@.len()) as int;
        let last_frames = decoder_frames(frames, n as nat) as usize;
        let last_channels = decoder_channels_before(self.blocks@, n);
        if k == 0 {
            conv_does(
                decoder_entry_conv(frames as usize),
                x,
                self.entry_conv_weight@,
                self.entry_conv_bias@,
                calc,
                r,
            )
        } else if k <= n {
            self.blocks@[k - 1].does(
                x,
                decoder_frames(frames, (k - 1) as nat) as usize,
                decoder_channels_before(self.blocks@, k - 1),
                decoder_rate(k - 1),
                calc,
                r,
            )
        } else if k == n + 1 {
            snake_does(
                x,
                last_frames as nat,
                last_channels as nat,
                self.tail_snake_alpha@,
                calc,
                r,
            )
        } else if k == n + 2 {
            conv_does(
                decoder_output_conv(last_frames, last_channels),
                x,
                self.output_conv_weight@,
                self.output_conv_bias@,
                calc,
                r,
            )
        } else {
            r matches Ok(v) && is_mapped(x, Op::Tanh, calc, v)
        }
    }

    /// The steps of the decoder.
    pub open spec fn steps<F: Fn(Op, T, T, T) -> T>(&self, frames: nat, calc: Calc<T, F>) -> Seq<
        spec_fn(Seq<T>, Result<Seq<T>, ErrorView>) -> bool,
    > {
        Seq::new(
            used_decoder_blocks(self.blocks@.len()) + 4,
            |k: int|
                |x: Seq<T>, r: Result<Seq<T>, ErrorView>| self.step_does(frames, k, calc, x, r),
        )
    }

    /// What the decoder does to frames of values.
    pub open spec fn does<F: Fn(Op, T, T, T) -> T>(
        &self,
        hidden: Seq<T>,
        frames: nat,
        width: usize,
        calc: Calc<T, F>,
        r: Result<Seq<T>, ErrorView>,
    ) -> bool {
        match decoder_input_error(hidden.len(), frames, width) {
            Some(e) => r == Err::<Seq<T>, ErrorView>(e),
            None => flows(self.steps(frames, calc), hidden, r),
        }
    }
}

fn decoder_step<T: Copy, F: Fn(Op, T, T, T) -> T>(
    weights: &CodecDecoderValues<T>,
    k: usize,
    n: usize,
    frames: usize,
    channels: usize,
    x: &[T],
    first: Ghost<nat>,
    calc: &Calc<T, F>,
) -> (r: Result<(Vec<T>, usize, usize), InferError>)
    requires
        calc.works(),
        weights.usable(),
        n == used_decoder_blocks(weights.blocks@.len()),
        k < n + 4,
        first@ <= usize::MAX,
        frames == decoder_frames(first@, before_block(k as int, n as int)),
        channels == decoder_channels_before(weights.blocks@, before_block(k as int, n as int) as int),
        weights.leads_to(before_block(k as int, n as int) as int),
    ensures
        match r {
            Ok(p) => {
                &&& weights.step_does(first@, k as int, *calc, x@, Ok(p.0@))
                &&& p.1 == decoder_frames(first@, before_block(k + 1, n as int))
                &&& p.2 == decoder_channels_before(
                    weights.blocks@,
                    before_block(k + 1, n as int) as int,
                )
                &&& weights.leads_to(before_block(k + 1, n as int) as int)
                &&& k == n + 2 ==> p.0@.len() == decoder_output_conv(frames, channels).out_frames(
                    weights.output_conv_weight@.len(),
                )
                &&& k == n + 3 ==> p.0@.len() == x@.len()
            },
            Err(e) => weights.step_does(first@, k as int, *calc, x@, Err(e@)),
        },
{
    reveal(CodecDecoderValues::step_does);
    if k == 0 {
        let spec = Conv1dFrameMajorSpec {
            frames,
            in_ch: 1024,
            out_ch: 1536,
            stride: 1,
            dilation: 1,
        };
        return match causal_conv_1d_frame_major(
            x,
            spec,
            weights.entry_conv_weight.as_slice(),
            weights.entry_conv_bias.as_slice(),
            calc,
        ) {
            Err(e) => Err(e),
            Ok(v) => Ok((v, frames, channels)),
        };
    }
    if k <= n {
        let stride: usize = rate_of(k - 1);
        assert(weights.blocks@[k - 1].usable(
            decoder_channels_before(weights.blocks@, k - 1),
            decoder_rate(k - 1),
        ));
        let v = match forward_codec_decoder_block(
            x,
            frames,
            channels,
            stride,
            &weights.blocks[k - 1],
            calc,
        ) {
            Err(e) => {
                return Err(e);
            },
            Ok(v) => v,
        };
        let more: usize = frames * stride;
        let out: usize = match block_output_channels(weights.blocks[k - 1].index) {
            Err(e) => {
                assert(false);
                return Err(e);
            },
            Ok(c) => c,
        };
        return Ok((v, more, out));
    }
    if k == n + 1 {
        return match snake_activation_frame_major(
            x,
            frames,
            channels,
            weights.tail_snake_alpha.as_slice(),
            calc,
        ) {
            Err(e) => Err(e),
            Ok(v) => Ok((v, frames, channels)),
        };
    }
    if k == n + 2 {
        let spec = Conv1dFrameMajorSpec {
            frames,
            in_ch: channels,
            out_ch: 1,
            stride: 1,
            dilation: 1,
        };
        return match causal_conv_1d_frame_major(
            x,
            spec,
            weights.output_conv_weight.as_slice(),
            weights.output_conv_bias.as_slice(),
            calc,
        ) {
            Err(e) => Err(e),
            Ok(v) => Ok((v, frames, channels)),
        };
    }
    Ok((map_all(x, Op::Tanh, calc), frames, channels))
}

/// Which block the frames before step `k` are ready for.
pub open spec fn before_block(k: int, n: int) -> nat {
    if k <= 0 {
        0
    } else if k <= n {
        (k - 1) as nat
    } else {
        n as nat
    }
}

/// Lets the decoder turn frames of values into samples.
pub fn forward_codec_decoder<T: Copy, F: Fn(Op, T, T, T) -> T>(
    hidden: &[T],
    n_frames: u32,
    hidden_dim: usize,
    weights: &CodecDecoderValues<T>,
    calc: &Calc<T, F>,
) -> (r: Result<Vec<T>, InferError>)
    requires
        calc.works(),
        weights.usable(),
    ensures
        weights.does(hidden@, n_frames as nat, hidden_dim, *calc, outcome(r)),
        r matches Ok(v) ==> weights.has_all_blocks() && 0 < n_frames && n_frames * 512 < 0x100_0000
            ==> v@.len() == n_frames * 512,
{
    let first: usize = n_frames as usize;
    match validate_frame_major_len("decoder input", hidden.len(), first, hidden_dim) {
        Err(e) => {
            return Err(e);
        },
        Ok(_) => {},
    }
    if hidden_dim != 1024 {
        let found = dec_usize(hidden_dim);
        return Err(
            InferError::Message(
                String::from_str("decoder expects latent dim 1024, got ").concat(found.as_str()),
            ),
        );
    }
    let n: usize = if weights.blocks.len() < 4 {
        weights.blocks.len()
    } else {
        4
    };
    let ghost steps = weights.steps(first as nat, *calc);
    proof {
        lemma_start(steps, hidden@);
    }
    let (start, mut frames, mut channels) = match decoder_step(
        weights,
        0,
        n,
        first,
        1536,
        hidden,
        Ghost(first as nat),
        calc,
    ) {
        Err(e) => {
            proof {
                assert(steps[0](hidden@, Err(e@)));
                lemma_step(steps, hidden@, 0, hidden@, Err(e@));
            }
            return Err(e);
        },
        Ok(p) => p,
    };
    proof {
        assert(steps[0](hidden@, Ok(start@)));
        lemma_step(steps, hidden@, 0, hidden@, Ok(start@));
    }
    let mut current = start;
    let mut k: usize = 1;
    while k < n + 4
        invariant
            1 <= k <= n + 4,
            n == used_decoder_blocks(weights.blocks@.len()),
            n <= 4,
            calc.works(),
            weights.usable(),
            steps == weights.steps(first as nat, *calc),
            decoder_input_error(hidden@.len(), first as nat, hidden_dim) is None,
            first == n_frames,
            reaches(steps, hidden@, k as int, Ok(current@)),
            frames == decoder_frames(first as nat, before_block(k as int, n as int)),
            channels == decoder_channels_before(
                weights.blocks@,
                before_block(k as int, n as int) as int,
            ),
            weights.leads_to(before_block(k as int, n as int) as int),
            k >= n + 3 ==> current@.len() == decoder_output_conv(
                decoder_frames(first as nat, n as nat) as usize,
                channels,
            ).out_frames(weights.output_conv_weight@.len()),
        decreases n + 4 - k,
    {
        match decoder_step(
            weights,
            k,
            n,
            frames,
            channels,
            current.as_slice(),
            Ghost(first as nat),
            calc,
        ) {
            Err(e) => {
                proof {
                    assert(steps[k as int](current@, Err(e@)));
                    lemma_step(steps, hidden@, k as int, current@, Err(e@));
                }
                return Err(e);
            },
            Ok((v, f, c)) => {
                proof {
                    assert(steps[k as int](current@, Ok(v@)));
                    lemma_step(steps, hidden@, k as int, current@, Ok(v@));
                }
                current = v;
                frames = f;
                channels = c;
            },
        }
        k = k + 1;
    }
    proof {
        if weights.has_all_blocks() && 0 < n_frames && n_frames * 512 < 0x100_0000 {
            lemma_rates(n_frames as nat);
            lemma_samples(
                decoder_output_conv((n_frames * 512) as usize, channels),
                weights.output_conv_weight@.len(),
            );
        }
    }
    Ok(current)
}

proof fn lemma_rates(frames: nat)
    ensures
        decoder_frames(frames, 4) == frames * 512,
{
    reveal_with_fuel(decoder_frames, 5);
    assert(frames * 8 * 8 * 4 * 2 == frames * 512) by (nonlinear_arith);
}

proof fn lemma_samples(s: Conv1dFrameMajorSpec, weight: nat)
    requires
        s.usable(weight),
        s.stride == 1,
        s.dilation == 1,
        0 < s.frames < 0x100_0000,
        weight < 0x100_0000,
    ensures
        s.out_frames(weight) == s.frames,
{
    let cells = (s.in_ch * s.out_ch) as nat;
    assert(weight / cells <= weight) by {
        assert(cells > 0) by (nonlinear_arith)
            requires
                cells == s.in_ch * s.out_ch,
                s.in_ch > 0,
                s.out_ch > 0,
        ;
        vstd::arithmetic::div_mod::lemma_div_is_ordered_by_denominator(weight as int, 1, cells as int);
    }
    assert(s.span(weight) == s.taps(weight));
    small_steps_keep_frames(s, weight);
}

} // verus!
