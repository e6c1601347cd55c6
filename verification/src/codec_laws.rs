//! What the parts of the codec come to.
use crate::arith::{lemma_next_row, lemma_rows_monotone};
use crate::backend::is_norm;
use crate::codec_blocks::{decoder_channels, encoder_channels, half_frames};
use crate::codec_coder_weights::{
    CodecDecoderBlockValues, CodecDecoderValues, CodecEncoderBlockValues, CodecEncoderValues,
};
use crate::codec_modules::{
    encode_does, encode_steps, frames_of, last_norm_does, latent_steps, transformer_does,
    transformer_steps, upsample_does, upsample_steps,
};
use crate::codec_weights::{
    CodecModuleValues, CodecResidualUnitValues, CodecStageValues, CodecTransformerLayerValues,
};
use crate::conv::{
    is_mapped, layer_norm_does, linear_frames_does, scale_frames_does, snake_does, sum_does,
};
use crate::convolve::{conv_does, Conv1dFrameMajorSpec};
use crate::error::ErrorView;
use crate::fast_ar::flat;
use crate::flow::{every_step_is_passed, flows, passes};
use crate::numeric::{Calc, Op};
use crate::sums::{lists_lie_behind_each_other, part, rows_lie_behind_each_other};
use crate::transpose::{depthwise_does, spread_does, ConvTranspose1dSpec};
use vstd::prelude::*;

verus! {

// ---------------------------------------------------------------------
// Residual units
// ---------------------------------------------------------------------

/// Whether every value became its snake with the parameter of its channel.
pub open spec fn is_snaked<T: Copy, F: Fn(Op, T, T, T) -> T>(
    input: Seq<T>,
    channels: int,
    alpha: Seq<T>,
    calc: Calc<T, F>,
    out: Seq<T>,
) -> bool {
    &&& alpha.len() == channels
    &&& out.len() == input.len()
    &&& forall|i: int|
        0 <= i < input.len() ==> calc.gives(
            Op::Snake,
            input[i],
            alpha[i % channels],
            calc.zero,
            #[trigger] out[i],
        )
}

/// Whether every value has the one at its place added.
pub open spec fn is_added_to<T: Copy, F: Fn(Op, T, T, T) -> T>(
    input: Seq<T>,
    more: Seq<T>,
    calc: Calc<T, F>,
    out: Seq<T>,
) -> bool {
    &&& more.len() == input.len()
    &&& out.len() == input.len()
    &&& forall|i: int|
        0 <= i < input.len() ==> calc.gives(
            Op::Plus,
            input[i],
            more[i],
            calc.zero,
            #[trigger] out[i],
        )
}

/// Whether this is the way of a residual unit: a snake, a dilated convolution, a snake, a convolution,
/// and the input added to what comes of it.
pub open spec fn is_unit_way<T: Copy, F: Fn(Op, T, T, T) -> T>(
    w: CodecResidualUnitValues<T>,
    input: Seq<T>,
    frames: usize,
    channels: usize,
    dilation: usize,
    calc: Calc<T, F>,
    way: (Seq<T>, Seq<T>, Seq<T>, Seq<T>),
    out: Seq<T>,
) -> bool {
    let wide = Conv1dFrameMajorSpec {
        frames,
        in_ch: channels,
        out_ch: channels,
        stride: 1,
        dilation,
    };
    let narrow = Conv1dFrameMajorSpec {
        frames,
        in_ch: channels,
        out_ch: channels,
        stride: 1,
        dilation: 1,
    };
    &&& is_snaked(input, channels as int, w.snake0_alpha@, calc, way.0)
    &&& conv_does(wide, way.0, w.conv0_weight@, w.conv0_bias@, calc, Ok(way.1))
    &&& is_snaked(way.1, channels as int, w.snake1_alpha@, calc, way.2)
    &&& conv_does(narrow, way.2, w.conv1_weight@, w.conv1_bias@, calc, Ok(way.3))
    &&& is_added_to(input, way.3, calc, out)
}

/// A residual unit adds to its input what two convolutions make of it, each behind a snake; the first
/// of them sees frames that lie a dilation apart.
pub proof fn residual_units_add_to_their_input<T: Copy, F: Fn(Op, T, T, T) -> T>(
    w: CodecResidualUnitValues<T>,
    input: Seq<T>,
    frames: usize,
    channels: usize,
    dilation: usize,
    calc: Calc<T, F>,
    out: Seq<T>,
)
    requires
        w.does(input, frames, channels, dilation, calc, Ok(out)),
    ensures
        input.len() == frames * channels,
        exists|way: (Seq<T>, Seq<T>, Seq<T>, Seq<T>)|
            #[trigger] is_unit_way(w, input, frames, channels, dilation, calc, way, out),
{
    let steps = w.steps(input, frames, channels, dilation, calc);
    every_step_is_passed(steps, input, out);
    let v = choose|v: Seq<Seq<T>>| #[trigger] passes(steps, input, out, v);
    assert(steps.len() == 5);
    assert(steps[0](v[0], Ok(v[1])));
    assert(steps[1](v[1], Ok(v[2])));
    assert(steps[2](v[2], Ok(v[3])));
    assert(steps[3](v[3], Ok(v[4])));
    assert(steps[4](v[4], Ok(v[5])));
    assert(snake_does(
        v[0],
        frames as nat,
        channels as nat,
        w.snake0_alpha@,
        calc,
        Ok::<Seq<T>, ErrorView>(v[1]),
    ));
    assert(snake_does(
        v[2],
        frames as nat,
        channels as nat,
        w.snake1_alpha@,
        calc,
        Ok::<Seq<T>, ErrorView>(v[3]),
    ));
    assert(sum_does(
        "frame-major residual"@,
        input,
        v[4],
        calc,
        Ok::<Seq<T>, ErrorView>(out),
    ));
    assert(is_unit_way(
        w,
        input,
        frames,
        channels,
        dilation,
        calc,
        (v[1], v[2], v[3], v[4]),
        out,
    ));
}

// ---------------------------------------------------------------------
// Decoder blocks
// ---------------------------------------------------------------------

/// The first decoder block leaves 768 channels, and each other one half as many as the one before it.
pub proof fn decoder_channels_halve(index: usize)
    ensures
        decoder_channels(index) is Ok <==> 1 <= index <= 4,
        decoder_channels(1)->Ok_0 == 768,
        1 < index <= 4 ==> 2 * decoder_channels(index)->Ok_0 == decoder_channels(
            (index - 1) as usize,
        )->Ok_0,
{
}

/// Whether this is the way of a decoder block: a snake, frames spread out, and three residual units
/// that see frames one, three and nine apart.
pub open spec fn is_decoder_block_way<T: Copy, F: Fn(Op, T, T, T) -> T>(
    w: CodecDecoderBlockValues<T>,
    input: Seq<T>,
    frames: usize,
    channels: usize,
    stride: usize,
    calc: Calc<T, F>,
    way: (Seq<T>, Seq<T>, Seq<T>, Seq<T>),
    out: Seq<T>,
) -> bool {
    let fewer = decoder_channels(w.index)->Ok_0;
    let more = (frames * stride) as usize;
    let spreading = ConvTranspose1dSpec {
        frames,
        in_ch: channels,
        out_ch: fewer,
        stride,
        crop_right: 0,
    };
    &&& is_snaked(input, channels as int, w.snake_alpha@, calc, way.0)
    &&& spread_does(
        spreading,
        way.0,
        w.conv_transpose_weight@,
        w.conv_transpose_bias@,
        calc,
        Ok(way.1),
    )
    &&& w.residual_1.does(way.1, more, fewer, 1, calc, Ok(way.2))
    &&& w.residual_2.does(way.2, more, fewer, 3, calc, Ok(way.3))
    &&& w.residual_3.does(way.3, more, fewer, 9, calc, Ok(out))
}

/// What a decoder block hands to the convolution that spreads frames out is its input with every
/// value turned into its snake with the parameter of its channel; three residual units follow. A
/// block with another number of parameters than channels is refused.
pub proof fn decoder_blocks_spread_snakes<T: Copy, F: Fn(Op, T, T, T) -> T>(
    w: CodecDecoderBlockValues<T>,
    input: Seq<T>,
    frames: usize,
    channels: usize,
    stride: usize,
    calc: Calc<T, F>,
    r: Result<Seq<T>, ErrorView>,
)
    requires
        w.does(input, frames, channels, stride, calc, r),
    ensures
        input.len() != frames * channels || w.snake_alpha@.len() != channels ==> r is Err,
        !(1 <= w.index <= 4) ==> r is Err,
        r matches Ok(out) ==> exists|way: (Seq<T>, Seq<T>, Seq<T>, Seq<T>)|
            #[trigger] is_decoder_block_way(w, input, frames, channels, stride, calc, way, out),
{
    if let Ok(out) = r {
        let steps = w.steps(frames, channels, stride, calc);
        every_step_is_passed(steps, input, out);
        let v = choose|v: Seq<Seq<T>>| #[trigger] passes(steps, input, out, v);
        assert(steps.len() == 5);
        assert(steps[0](v[0], Ok(v[1])));
        assert(steps[1](v[1], Ok(v[2])));
        assert(steps[2](v[2], Ok(v[3])));
        assert(steps[3](v[3], Ok(v[4])));
        assert(steps[4](v[4], Ok(v[5])));
        assert(snake_does(
            v[0],
            frames as nat,
            channels as nat,
            w.snake_alpha@,
            calc,
            Ok::<Seq<T>, ErrorView>(v[1]),
        ));
        decoder_channels_halve(w.index);
        assert(is_decoder_block_way(
            w,
            input,
            frames,
            channels,
            stride,
            calc,
            (v[1], v[2], v[3], v[4]),
            out,
        ));
    }
}

// ---------------------------------------------------------------------
// Stages that change the frame rate
// ---------------------------------------------------------------------

/// Whether this is the way of the block behind a change of the frame rate: each channel alone with a
/// kernel of seven, a norm, a table to four times the width, an activation, a table back, a factor
/// for each channel, and the input added.
pub open spec fn is_mixing_way<T: Copy, F: Fn(Op, T, T, T) -> T>(
    w: CodecStageValues<T>,
    input: Seq<T>,
    frames: nat,
    calc: Calc<T, F>,
    way: (Seq<T>, Seq<T>, Seq<T>, Seq<T>, Seq<T>, Seq<T>),
    out: Seq<T>,
) -> bool {
    &&& depthwise_does(input, frames, 1024, 7, w.dwconv_weight@, w.dwconv_bias@, calc, Ok(way.0))
    &&& layer_norm_does(
        way.0,
        frames,
        1024,
        w.norm_weight@,
        w.norm_bias@,
        0x3586_37bd,
        calc,
        Ok(way.1),
    )
    &&& linear_frames_does(
        way.1,
        frames,
        1024,
        4096,
        w.pwconv1_weight@,
        w.pwconv1_bias@,
        calc,
        Ok(way.2),
    )
    &&& way.3.len() == way.2.len()
    &&& forall|i: int|
        0 <= i < way.2.len() ==> calc.gives(
            Op::Gelu,
            way.2[i],
            calc.zero,
            calc.zero,
            #[trigger] way.3[i],
        )
    &&& linear_frames_does(
        way.3,
        frames,
        4096,
        1024,
        w.pwconv2_weight@,
        w.pwconv2_bias@,
        calc,
        Ok(way.4),
    )
    &&& scale_frames_does(way.4, 1024, w.convnext_gamma@, calc, Ok(way.5))
    &&& is_added_to(input, way.5, calc, out)
}

/// The block behind a change of the frame rate adds to its input what it makes of it.
pub proof fn mixing_blocks_add_to_their_input<T: Copy, F: Fn(Op, T, T, T) -> T>(
    w: CodecStageValues<T>,
    name: Seq<char>,
    input: Seq<T>,
    frames: usize,
    calc: Calc<T, F>,
    out: Seq<T>,
)
    requires
        w.block_does(name, input, frames, calc, Ok(out)),
    ensures
        input.len() == frames * 1024,
        exists|way: (Seq<T>, Seq<T>, Seq<T>, Seq<T>, Seq<T>, Seq<T>)|
            #[trigger] is_mixing_way(w, input, frames as nat, calc, way, out),
{
    let steps = w.steps(input, frames, calc);
    every_step_is_passed(steps, input, out);
    let v = choose|v: Seq<Seq<T>>| #[trigger] passes(steps, input, out, v);
    assert(steps.len() == 7);
    assert(steps[0](v[0], Ok(v[1])));
    assert(steps[1](v[1], Ok(v[2])));
    assert(steps[2](v[2], Ok(v[3])));
    assert(steps[3](v[3], Ok(v[4])));
    assert(steps[4](v[4], Ok(v[5])));
    assert(steps[5](v[5], Ok(v[6])));
    assert(steps[6](v[6], Ok(v[7])));
    assert(is_mapped(v[3], Op::Gelu, calc, v[4]));
    assert(sum_does(
        "frame-major residual"@,
        input,
        v[6],
        calc,
        Ok::<Seq<T>, ErrorView>(out),
    ));
    assert(is_mixing_way(
        w,
        input,
        frames as nat,
        calc,
        (v[1], v[2], v[3], v[4], v[5], v[6]),
        out,
    ));
}

/// A stage that doubles the frame rate spreads every frame over two, and lets its block work on twice
/// as many frames.
pub proof fn doubling_stages_spread_and_mix<T: Copy, F: Fn(Op, T, T, T) -> T>(
    w: CodecStageValues<T>,
    input: Seq<T>,
    frames: usize,
    calc: Calc<T, F>,
    out: Seq<T>,
)
    requires
        w.up_does(input, frames, calc, Ok(out)),
    ensures
        input.len() == frames * 1024,
        exists|middle: Seq<T>|
            {
                &&& #[trigger] spread_does(
                    (ConvTranspose1dSpec {
                        frames,
                        in_ch: 1024,
                        out_ch: 1024,
                        stride: 2,
                        crop_right: 0,
                    }),
                    input,
                    w.conv_weight@,
                    w.conv_bias@,
                    calc,
                    Ok(middle),
                )
                &&& w.block_does(
                    "codec convnext input"@,
                    middle,
                    (2 * frames) as usize,
                    calc,
                    Ok(out),
                )
            },
{
    let steps = w.up_steps(frames, calc);
    every_step_is_passed(steps, input, out);
    let v = choose|v: Seq<Seq<T>>| #[trigger] passes(steps, input, out, v);
    assert(steps.len() == 2);
    assert(steps[0](v[0], Ok(v[1])));
    assert(steps[1](v[1], Ok(v[2])));
    assert(frames * 2 == 2 * frames);
}

/// A stage that halves the frame rate takes its frames two by two, and lets its block work on half as
/// many, a last odd one left out.
pub proof fn halving_stages_fold_and_mix<T: Copy, F: Fn(Op, T, T, T) -> T>(
    w: CodecStageValues<T>,
    input: Seq<T>,
    frames: usize,
    calc: Calc<T, F>,
    out: Seq<T>,
)
    requires
        w.down_does(input, frames, calc, Ok(out)),
    ensures
        input.len() == frames * 1024,
        frames >= 2,
        exists|middle: Seq<T>|
            {
                &&& #[trigger] conv_does(
                    (Conv1dFrameMajorSpec {
                        frames,
                        in_ch: 1024,
                        out_ch: 1024,
                        stride: 2,
                        dilation: 1,
                    }),
                    input,
                    w.conv_weight@,
                    w.conv_bias@,
                    calc,
                    Ok(middle),
                )
                &&& w.block_does(
                    "codec downsample convnext input"@,
                    middle,
                    (frames / 2) as usize,
                    calc,
                    Ok(out),
                )
            },
{
    let steps = w.down_steps(frames, calc);
    every_step_is_passed(steps, input, out);
    let v = choose|v: Seq<Seq<T>>| #[trigger] passes(steps, input, out, v);
    assert(steps.len() == 2);
    assert(steps[0](v[0], Ok(v[1])));
    assert(steps[1](v[1], Ok(v[2])));
    assert(half_frames(frames as nat) is Ok);
    assert(half_frames(frames as nat)->Ok_0 == frames / 2);
}

// ---------------------------------------------------------------------
// Transformers
// ---------------------------------------------------------------------

/// Whether a layer makes these frames of those.
#[verifier::opaque]
pub open spec fn layer_gives<T: Copy, F: Fn(Op, T, T, T) -> T>(
    layer: CodecTransformerLayerValues<T>,
    before: Seq<Seq<T>>,
    window: usize,
    calc: Calc<T, F>,
    given: Seq<Seq<T>>,
) -> bool {
    layer.does(before, window, calc, Ok(given))
}

/// Whether a frame is the norm of another.
#[verifier::opaque]
pub open spec fn is_normed<T: Copy, F: Fn(Op, T, T, T) -> T>(
    frame: Seq<T>,
    weight: Seq<T>,
    calc: Calc<T, F>,
    out: Seq<T>,
) -> bool {
    is_norm(frame, weight, 0x3727_c5ac, calc, out)
}

/// Whether these are the frames along the layers of a transformer: those of the input, those that
/// each layer gives, and the norms of the last ones.
pub open spec fn is_transformer_way<T: Copy, F: Fn(Op, T, T, T) -> T>(
    x: Seq<T>,
    width: int,
    layers: Seq<CodecTransformerLayerValues<T>>,
    window: usize,
    norm: Seq<T>,
    calc: Calc<T, F>,
    states: Seq<Seq<Seq<T>>>,
    normed: Seq<Seq<T>>,
) -> bool {
    let count = x.len() as int / width;
    let last = states[layers.len() as int];
    &&& states.len() == layers.len() + 1
    &&& states[0].len() == count
    &&& forall|i: int| 0 <= i < count ==> #[trigger] states[0][i] == part(x, i * width, width)
    &&& forall|k: int|
        0 <= k < layers.len() ==> layer_gives(
            #[trigger] layers[k],
            states[k],
            window,
            calc,
            states[k + 1],
        )
    &&& normed.len() == last.len()
    &&& forall|i: int|
        0 <= i < last.len() ==> is_normed(last[i], norm, calc, #[trigger] normed[i])
}

/// What a transformer gives is, frame by frame, the norm of what its last layer gave; its first layer
/// is given the frames of the input, and each other layer what the one before it gave.
pub proof fn transformers_give_normed_frames<T: Copy, F: Fn(Op, T, T, T) -> T>(
    x: Seq<T>,
    width: nat,
    layers: Seq<CodecTransformerLayerValues<T>>,
    window: usize,
    norm: Option<Seq<T>>,
    calc: Calc<T, F>,
    out: Seq<T>,
)
    requires
        transformer_does(x, width, layers, window, norm, calc, Ok(out)),
        0 < width,
    ensures
        norm is Some,
        exists|states: Seq<Seq<Seq<T>>>, normed: Seq<Seq<T>>|
            #[trigger] is_transformer_way(
                x,
                width as int,
                layers,
                window,
                norm->0,
                calc,
                states,
                normed,
            ) && out == flat(normed),
{
    let m = choose|m: Result<Seq<Seq<T>>, ErrorView>|
        #[trigger] flows(
            transformer_steps(layers, window, norm, calc),
            frames_of(x, width),
            m,
        ) && Ok::<Seq<T>, ErrorView>(out) == crate::codec_modules::joined_outcome(m);
    let normed = m->Ok_0;
    let steps = transformer_steps(layers, window, norm, calc);
    let n = layers.len() as int;
    every_step_is_passed(steps, frames_of(x, width), normed);
    let v = choose|v: Seq<Seq<Seq<T>>>| #[trigger] passes(steps, frames_of(x, width), normed, v);
    assert(steps.len() == n + 1);
    assert forall|k: int| 0 <= k < n implies layer_gives(
        #[trigger] layers[k],
        v[k],
        window,
        calc,
        v[k + 1],
    ) by {
        reveal(layer_gives);
        assert(steps[k](v[k], Ok(v[k + 1])));
    }
    assert(steps[n](v[n], Ok(v[n + 1])));
    assert(last_norm_does(v[n], norm, calc, Ok::<Seq<Seq<T>>, ErrorView>(normed)));
    let states = v.take(n + 1);
    assert forall|k: int| 0 <= k < n implies layer_gives(
        #[trigger] layers[k],
        states[k],
        window,
        calc,
        states[k + 1],
    ) by {
        assert(states[k] == v[k]);
        assert(states[k + 1] == v[k + 1]);
    }
    let count = x.len() as int / (width as int);
    assert forall|i: int| 0 <= i < count implies #[trigger] states[0][i] == part(
        x,
        i * width,
        width as int,
    ) by {
        lemma_frame_inside(x.len() as int, width as int, i);
        rows_lie_behind_each_other(x, i, width as int);
    }
    assert forall|i: int| 0 <= i < states[n].len() implies is_normed(
        states[n][i],
        norm->0,
        calc,
        #[trigger] normed[i],
    ) by {
        reveal(is_normed);
    }
    assert(is_transformer_way(x, width as int, layers, window, norm->0, calc, states, normed));
}

proof fn lemma_frame_inside(size: int, width: int, i: int)
    requires
        0 < width,
        0 <= size,
        0 <= i < size / width,
    ensures
        0 <= i * width,
        i * width + width <= size,
{
    vstd::arithmetic::div_mod::lemma_fundamental_div_mod(size, width);
    vstd::arithmetic::div_mod::lemma_mod_bound(size, width);
    lemma_rows_monotone(i + 1, size / width, width);
    lemma_next_row(i, width);
    lemma_rows_monotone(0, i, width);
    vstd::arithmetic::mul::lemma_mul_is_commutative(width, size / width);
}

/// A layer keeps the width of every frame.
proof fn lemma_layer_keeps_widths<T: Copy, F: Fn(Op, T, T, T) -> T>(
    layer: CodecTransformerLayerValues<T>,
    tokens: Seq<Seq<T>>,
    window: usize,
    calc: Calc<T, F>,
    out: Seq<Seq<T>>,
)
    requires
        layer_gives(layer, tokens, window, calc, out),
    ensures
        out.len() == tokens.len(),
        forall|i: int| 0 <= i < out.len() ==> (#[trigger] out[i]).len() == tokens[i].len(),
{
    reveal(layer_gives);
    assert(layer.is_layer(tokens, window as int, calc, out));
    let (p, middle) = choose|p: Seq<crate::fast_ar::PreparedToken<T>>, middle: Seq<Seq<T>>|
        {
            &&& #[trigger] layer.are_prepared(tokens, calc, p)
            &&& #[trigger] layer.are_asked(tokens, window as int, p, calc, middle)
            &&& forall|i: int|
                0 <= i < out.len() ==> layer.is_fed(middle[i], calc, #[trigger] out[i])
        };
    assert forall|i: int| 0 <= i < out.len() implies (#[trigger] out[i]).len()
        == tokens[i].len() by {
        assert(layer.is_fed(middle[i], calc, out[i]));
        let _ = middle[i];
    }
}

proof fn lemma_ways_keep_widths<T: Copy, F: Fn(Op, T, T, T) -> T>(
    layers: Seq<CodecTransformerLayerValues<T>>,
    window: usize,
    calc: Calc<T, F>,
    states: Seq<Seq<Seq<T>>>,
    width: int,
    n: int,
)
    requires
        0 <= n < states.len(),
        states.len() == layers.len() + 1,
        forall|i: int| 0 <= i < states[0].len() ==> (#[trigger] states[0][i]).len() == width,
        forall|k: int|
            0 <= k < layers.len() ==> layer_gives(
                #[trigger] layers[k],
                states[k],
                window,
                calc,
                states[k + 1],
            ),
    ensures
        states[n].len() == states[0].len(),
        forall|i: int| 0 <= i < states[n].len() ==> (#[trigger] states[n][i]).len() == width,
    decreases n,
{
    if n > 0 {
        lemma_ways_keep_widths(layers, window, calc, states, width, n - 1);
        lemma_layer_keeps_widths(layers[n - 1], states[n - 1], window, calc, states[n]);
    }
}

/// Frame `f` of what a transformer gives is the norm of the frame that its last layer gave, and
/// stands where frame `f` of the input stood.
pub proof fn transformer_frames_stay_in_place<T: Copy, F: Fn(Op, T, T, T) -> T>(
    x: Seq<T>,
    width: nat,
    layers: Seq<CodecTransformerLayerValues<T>>,
    window: usize,
    norm: Option<Seq<T>>,
    calc: Calc<T, F>,
    out: Seq<T>,
    f: int,
)
    requires
        transformer_does(x, width, layers, window, norm, calc, Ok(out)),
        0 < width,
        0 <= f < x.len() as int / (width as int),
    ensures
        norm is Some,
        out.len() == (x.len() as int / (width as int)) * width,
        exists|states: Seq<Seq<Seq<T>>>, normed: Seq<Seq<T>>|
            {
                &&& #[trigger] is_transformer_way(
                    x,
                    width as int,
                    layers,
                    window,
                    norm->0,
                    calc,
                    states,
                    normed,
                )
                &&& f < states[layers.len() as int].len()
                &&& is_normed(
                    states[layers.len() as int][f],
                    norm->0,
                    calc,
                    part(out, f * width, width as int),
                )
            },
{
    transformers_give_normed_frames(x, width, layers, window, norm, calc, out);
    let (states, normed) = choose|states: Seq<Seq<Seq<T>>>, normed: Seq<Seq<T>>|
        #[trigger] is_transformer_way(
            x,
            width as int,
            layers,
            window,
            norm->0,
            calc,
            states,
            normed,
        ) && out == flat(normed);
    let n = layers.len() as int;
    let w = width as int;
    assert forall|i: int| 0 <= i < states[0].len() implies (#[trigger] states[0][i]).len() == w by {
        assert(states[0][i] == part(x, i * width, w));
    }
    lemma_ways_keep_widths(layers, window, calc, states, w, n);
    assert forall|i: int| 0 <= i < normed.len() implies (#[trigger] normed[i]).len() == w by {
        reveal(is_normed);
        assert(is_normed(states[n][i], norm->0, calc, normed[i]));
    }
    lists_lie_behind_each_other(normed, w, f);
}

// ---------------------------------------------------------------------
// Encoder blocks
// ---------------------------------------------------------------------

/// Each encoder block leaves twice as many channels as the one before it, from 64 on.
pub proof fn encoder_channels_double(index: usize)
    ensures
        encoder_channels(index) is Ok <==> index <= 4,
        encoder_channels(0)->Ok_0 == 64,
        0 < index <= 4 ==> encoder_channels(index)->Ok_0 == 2 * encoder_channels(
            (index - 1) as usize,
        )->Ok_0,
{
}

/// Whether this is the way of an encoder block up to its transformer: three residual units that see
/// frames one, three and nine apart, a snake, and a convolution that lowers the frame rate.
#[verifier::opaque]
pub open spec fn is_encoder_block_way<T: Copy, F: Fn(Op, T, T, T) -> T>(
    w: CodecEncoderBlockValues<T>,
    input: Seq<T>,
    frames: usize,
    channels: usize,
    stride: usize,
    calc: Calc<T, F>,
    way: (Seq<T>, Seq<T>, Seq<T>, Seq<T>),
    lowered: Seq<T>,
) -> bool {
    let lowering = Conv1dFrameMajorSpec {
        frames,
        in_ch: channels,
        out_ch: encoder_channels(w.index)->Ok_0,
        stride,
        dilation: 1,
    };
    &&& w.residual_1.does(input, frames, channels, 1, calc, Ok(way.0))
    &&& w.residual_2.does(way.0, frames, channels, 3, calc, Ok(way.1))
    &&& w.residual_3.does(way.1, frames, channels, 9, calc, Ok(way.2))
    &&& is_snaked(way.2, channels as int, w.snake_alpha@, calc, way.3)
    &&& conv_does(lowering, way.3, w.down_conv_weight@, w.down_conv_bias@, calc, Ok(lowered))
}

/// Whether this is the end of an encoder block: what its transformer makes of frames, or the frames
/// themselves where it has no layers.
#[verifier::opaque]
pub open spec fn is_block_end<T: Copy, F: Fn(Op, T, T, T) -> T>(
    w: CodecEncoderBlockValues<T>,
    lowered: Seq<T>,
    calc: Calc<T, F>,
    out: Seq<T>,
) -> bool {
    if w.transformer_layers@.len() == 0 {
        out == lowered
    } else {
        &&& w.transformer_norm_weight is Some
        &&& transformer_does(
            lowered,
            encoder_channels(w.index)->Ok_0 as nat,
            w.transformer_layers@,
            512,
            Some(w.transformer_norm_weight->0@),
            calc,
            Ok(out),
        )
    }
}

/// What an encoder block gives is what its transformer makes of the frames behind its convolution;
/// without layers it is these frames themselves.
pub proof fn encoder_blocks_end_with_their_transformer<T: Copy, F: Fn(Op, T, T, T) -> T>(
    w: CodecEncoderBlockValues<T>,
    input: Seq<T>,
    frames: usize,
    channels: usize,
    stride: usize,
    calc: Calc<T, F>,
    out: Seq<T>,
)
    requires
        w.does(input, frames, channels, stride, calc, Ok(out)),
    ensures
        input.len() == frames * channels,
        exists|way: (Seq<T>, Seq<T>, Seq<T>, Seq<T>), lowered: Seq<T>|
            #[trigger] is_encoder_block_way(
                w,
                input,
                frames,
                channels,
                stride,
                calc,
                way,
                lowered,
            ) && is_block_end(w, lowered, calc, out),
{
    let steps = w.steps(frames, channels, stride, calc);
    every_step_is_passed(steps, input, out);
    let v = choose|v: Seq<Seq<T>>| #[trigger] passes(steps, input, out, v);
    assert(steps.len() == 6);
    assert(steps[0](v[0], Ok(v[1])));
    assert(steps[1](v[1], Ok(v[2])));
    assert(steps[2](v[2], Ok(v[3])));
    assert(steps[3](v[3], Ok(v[4])));
    assert(steps[4](v[4], Ok(v[5])));
    assert(steps[5](v[5], Ok(v[6])));
    assert(snake_does(
        v[3],
        frames as nat,
        channels as nat,
        w.snake_alpha@,
        calc,
        Ok::<Seq<T>, ErrorView>(v[4]),
    ));
    encoder_channels_double(w.index);
    reveal(is_encoder_block_way);
    assert(is_encoder_block_way(
        w,
        input,
        frames,
        channels,
        stride,
        calc,
        (v[1], v[2], v[3], v[4]),
        v[5],
    ));
    reveal(is_block_end);
    assert(w.inside_does(v[5], frames, stride, calc, Ok::<Seq<T>, ErrorView>(out)));
    if w.transformer_layers@.len() > 0 {
        let width = encoder_channels(w.index)->Ok_0 as nat;
        let norm = crate::codec_coder::norm_values(w.transformer_norm_weight);
        assert(transformer_does(
            v[5],
            width,
            w.transformer_layers@,
            512,
            norm,
            calc,
            Ok::<Seq<T>, ErrorView>(out),
        ));
        transformers_give_normed_frames(
            v[5],
            width,
            w.transformer_layers@,
            512,
            norm,
            calc,
            out,
        );
    }
}

/// Where an encoder block has transformer layers, each frame of its output is the norm, by the
/// weights of its last norm, of a frame that its last layer gave.
pub proof fn encoder_block_frames_are_normed<T: Copy, F: Fn(Op, T, T, T) -> T>(
    w: CodecEncoderBlockValues<T>,
    input: Seq<T>,
    frames: usize,
    channels: usize,
    stride: usize,
    calc: Calc<T, F>,
    out: Seq<T>,
    f: int,
)
    requires
        w.does(input, frames, channels, stride, calc, Ok(out)),
        w.transformer_layers@.len() > 0,
        0 <= f,
        f * encoder_channels(w.index)->Ok_0 < out.len(),
    ensures
        w.transformer_norm_weight is Some,
        exists|given: Seq<Seq<T>>, before: Seq<Seq<T>>|
            {
                &&& #[trigger] layer_gives(
                    w.transformer_layers@.last(),
                    before,
                    512,
                    calc,
                    given,
                )
                &&& f < given.len()
                &&& is_normed(
                    given[f],
                    w.transformer_norm_weight->0@,
                    calc,
                    part(
                        out,
                        f * encoder_channels(w.index)->Ok_0,
                        encoder_channels(w.index)->Ok_0 as int,
                    ),
                )
            },
{
    encoder_blocks_end_with_their_transformer(w, input, frames, channels, stride, calc, out);
    let (way, lowered) = choose|way: (Seq<T>, Seq<T>, Seq<T>, Seq<T>), lowered: Seq<T>|
        #[trigger] is_encoder_block_way(
            w,
            input,
            frames,
            channels,
            stride,
            calc,
            way,
            lowered,
        ) && is_block_end(w, lowered, calc, out);
    lemma_block_index(w, input, frames, channels, stride, calc, out);
    lemma_block_end(w, lowered, calc, out, f);
}

proof fn lemma_block_end<T: Copy, F: Fn(Op, T, T, T) -> T>(
    w: CodecEncoderBlockValues<T>,
    lowered: Seq<T>,
    calc: Calc<T, F>,
    out: Seq<T>,
    f: int,
)
    requires
        is_block_end(w, lowered, calc, out),
        w.transformer_layers@.len() > 0,
        w.index <= 4,
        0 <= f,
        f * encoder_channels(w.index)->Ok_0 < out.len(),
    ensures
        w.transformer_norm_weight is Some,
        exists|given: Seq<Seq<T>>, before: Seq<Seq<T>>|
            {
                &&& #[trigger] layer_gives(
                    w.transformer_layers@.last(),
                    before,
                    512,
                    calc,
                    given,
                )
                &&& f < given.len()
                &&& is_normed(
                    given[f],
                    w.transformer_norm_weight->0@,
                    calc,
                    part(
                        out,
                        f * encoder_channels(w.index)->Ok_0,
                        encoder_channels(w.index)->Ok_0 as int,
                    ),
                )
            },
{
    reveal(is_block_end);
    let width = encoder_channels(w.index)->Ok_0 as nat;
    assert(width > 0);
    last_layers_are_normed(
        lowered,
        width,
        w.transformer_layers@,
        512,
        Some(w.transformer_norm_weight->0@),
        calc,
        out,
        f,
    );
}

/// Each frame that a transformer with layers gives is the norm of a frame that its last layer gave.
pub proof fn last_layers_are_normed<T: Copy, F: Fn(Op, T, T, T) -> T>(
    x: Seq<T>,
    width: nat,
    layers: Seq<CodecTransformerLayerValues<T>>,
    window: usize,
    norm: Option<Seq<T>>,
    calc: Calc<T, F>,
    out: Seq<T>,
    f: int,
)
    requires
        transformer_does(x, width, layers, window, norm, calc, Ok(out)),
        0 < width,
        0 < layers.len(),
        0 <= f,
        f * width < out.len(),
    ensures
        norm is Some,
        exists|given: Seq<Seq<T>>, before: Seq<Seq<T>>|
            {
                &&& #[trigger] layer_gives(layers.last(), before, window, calc, given)
                &&& f < given.len()
                &&& is_normed(
                    given[f],
                    norm->0,
                    calc,
                    part(out, f * width, width as int),
                )
            },
{
    lemma_transformer_size(x, width, layers, window, norm, calc, out);
    lemma_inside_rows(f, x.len() as int / (width as int), width as int);
    transformer_frames_stay_in_place(x, width, layers, window, norm, calc, out, f);
    let (states, normed) = choose|states: Seq<Seq<Seq<T>>>, normed: Seq<Seq<T>>|
        {
            &&& #[trigger] is_transformer_way(
                x,
                width as int,
                layers,
                window,
                norm->0,
                calc,
                states,
                normed,
            )
            &&& f < states[layers.len() as int].len()
            &&& is_normed(
                states[layers.len() as int][f],
                norm->0,
                calc,
                part(out, f * width, width as int),
            )
        };
    let n = layers.len() as int;
    let before = states[n - 1];
    assert(layer_gives(layers[n - 1], before, window, calc, states[n - 1 + 1]));
    assert(layer_gives(layers.last(), before, window, calc, states[n]));
}

proof fn lemma_inside_rows(f: int, count: int, width: int)
    requires
        f * width < count * width,
        0 < width,
    ensures
        f < count,
{
    assert(f < count) by (nonlinear_arith)
        requires
            f * width < count * width,
            0 < width,
    ;
}

proof fn lemma_block_index<T: Copy, F: Fn(Op, T, T, T) -> T>(
    w: CodecEncoderBlockValues<T>,
    input: Seq<T>,
    frames: usize,
    channels: usize,
    stride: usize,
    calc: Calc<T, F>,
    out: Seq<T>,
)
    requires
        w.does(input, frames, channels, stride, calc, Ok(out)),
    ensures
        encoder_channels(w.index) is Ok,
        w.index <= 4,
{
    let steps = w.steps(frames, channels, stride, calc);
    every_step_is_passed(steps, input, out);
    let v = choose|v: Seq<Seq<T>>| #[trigger] passes(steps, input, out, v);
    assert(steps[4](v[4], Ok(v[5])));
}

proof fn lemma_transformer_size<T: Copy, F: Fn(Op, T, T, T) -> T>(
    x: Seq<T>,
    width: nat,
    layers: Seq<CodecTransformerLayerValues<T>>,
    window: usize,
    norm: Option<Seq<T>>,
    calc: Calc<T, F>,
    out: Seq<T>,
)
    requires
        transformer_does(x, width, layers, window, norm, calc, Ok(out)),
        0 < width,
    ensures
        out.len() == (x.len() as int / (width as int)) * width,
{
    let count = x.len() as int / (width as int);
    if count > 0 {
        transformer_frames_stay_in_place(x, width, layers, window, norm, calc, out, 0);
    } else {
        transformers_give_normed_frames(x, width, layers, window, norm, calc, out);
        let (states, normed) = choose|states: Seq<Seq<Seq<T>>>, normed: Seq<Seq<T>>|
            #[trigger] is_transformer_way(
                x,
                width as int,
                layers,
                window,
                norm->0,
                calc,
                states,
                normed,
            ) && out == flat(normed);
        vstd::arithmetic::div_mod::lemma_div_pos_is_pos(x.len() as int, width as int);
        lemma_ways_keep_widths(layers, window, calc, states, width as int, layers.len() as int);
        assert(normed.len() == 0);
        assert(0 * width == 0) by (nonlinear_arith);
    }
}

// ---------------------------------------------------------------------
// The decoder
// ---------------------------------------------------------------------

/// By how much the decoder blocks raise the frame rate, one after the other.
pub open spec fn raising_rates() -> Seq<usize> {
    seq![8, 8, 4, 2]
}

/// By how much the encoder blocks lower the frame rate, one after the other.
pub open spec fn lowering_rates() -> Seq<usize> {
    seq![2, 4, 8, 8]
}

/// The encoder lowers the frame rate block by block as the decoder raises it, in the other order: both
/// by 512 in all.
pub proof fn rates_undo_each_other(i: int)
    requires
        0 <= i < 4,
    ensures
        crate::codec_decode::decoder_rate(i) == raising_rates()[i],
        crate::codec_coder::encoder_rate(i) == lowering_rates()[i],
        raising_rates()[i] == lowering_rates()[3 - i],
        raising_rates()[0] * raising_rates()[1] * raising_rates()[2] * raising_rates()[3] == 512,
{
}

/// How many frames there are before decoder block `i`, in frames of the decoder's input.
pub open spec fn raised(i: int) -> int
    decreases i,
{
    if i <= 0 {
        1
    } else {
        raised(i - 1) * raising_rates()[i - 1]
    }
}

proof fn lemma_raised()
    ensures
        raised(0) == 1,
        raised(4) == 512,
{
    assert(raised(1) == raised(0) * 8);
    assert(raised(2) == raised(1) * 8);
    assert(raised(3) == raised(2) * 4);
    assert(raised(4) == raised(3) * 2);
}

/// Before decoder block `i` there are as many frames as the rates before it make of one, for each frame
/// of the input.
pub proof fn decoder_frames_multiply(frames: nat, i: nat)
    requires
        i <= 4,
    ensures
        crate::codec_decode::decoder_frames(frames, i) == frames * raised(i as int),
        raised(4) == 512,
    decreases i,
{
    lemma_raised();
    if i > 0 {
        decoder_frames_multiply(frames, (i - 1) as nat);
        rates_undo_each_other(i - 1);
        let before = raised(i - 1);
        let rate = raising_rates()[i - 1] as int;
        assert((frames * before) * rate == frames * (before * rate)) by (nonlinear_arith);
    }
}

/// Whether a decoder block makes these values of those.
#[verifier::opaque]
pub open spec fn decoder_block_gives<T: Copy, F: Fn(Op, T, T, T) -> T>(
    w: CodecDecoderBlockValues<T>,
    x: Seq<T>,
    frames: nat,
    channels: usize,
    stride: usize,
    calc: Calc<T, F>,
    out: Seq<T>,
) -> bool {
    w.does(x, frames as usize, channels, stride, calc, Ok(out))
}

/// How many channels decoder block `i` takes in: 1536, or what the block before it gives.
pub open spec fn block_inputs<T>(w: CodecDecoderValues<T>, i: int) -> usize {
    if i == 0 {
        1536
    } else {
        decoder_channels(w.blocks@[i - 1].index)->Ok_0
    }
}

/// Whether this is the way through a decoder of four blocks: a convolution from 1024 to 1536 channels,
/// the blocks, a snake, a convolution to one channel, and every sample bounded by its hyperbolic
/// tangent.
pub open spec fn is_decoder_way<T: Copy, F: Fn(Op, T, T, T) -> T>(
    w: CodecDecoderValues<T>,
    hidden: Seq<T>,
    frames: nat,
    calc: Calc<T, F>,
    way: Seq<Seq<T>>,
    snaked: Seq<T>,
    mixed: Seq<T>,
    out: Seq<T>,
) -> bool {
    let entry = Conv1dFrameMajorSpec {
        frames: frames as usize,
        in_ch: 1024,
        out_ch: 1536,
        stride: 1,
        dilation: 1,
    };
    let channels = decoder_channels(w.blocks@[3].index)->Ok_0;
    let end = Conv1dFrameMajorSpec {
        frames: (frames * 512) as usize,
        in_ch: channels,
        out_ch: 1,
        stride: 1,
        dilation: 1,
    };
    &&& way.len() == 5
    &&& conv_does(
        entry,
        hidden,
        w.entry_conv_weight@,
        w.entry_conv_bias@,
        calc,
        Ok(way[0]),
    )
    &&& forall|i: int|
        0 <= i < 4 ==> #[trigger] decoder_block_gives(
            w.blocks@[i],
            way[i],
            (frames * raised(i)) as nat,
            block_inputs(w, i),
            raising_rates()[i],
            calc,
            way[i + 1],
        )
    &&& is_snaked(way[4], channels as int, w.tail_snake_alpha@, calc, snaked)
    &&& conv_does(
        end,
        snaked,
        w.output_conv_weight@,
        w.output_conv_bias@,
        calc,
        Ok(mixed),
    )
    &&& out.len() == mixed.len()
    &&& forall|i: int|
        0 <= i < mixed.len() ==> calc.gives(
            Op::Tanh,
            mixed[i],
            calc.zero,
            calc.zero,
            #[trigger] out[i],
        )
}

/// The decoder makes sound of frames by a convolution, four blocks that raise the frame rate, a snake,
/// a convolution to one channel, and the hyperbolic tangent of every sample.
pub proof fn decoders_end_with_bounded_samples<T: Copy, F: Fn(Op, T, T, T) -> T>(
    w: CodecDecoderValues<T>,
    hidden: Seq<T>,
    frames: nat,
    width: usize,
    calc: Calc<T, F>,
    out: Seq<T>,
)
    requires
        w.does(hidden, frames, width, calc, Ok(out)),
        w.blocks@.len() >= 4,
    ensures
        width == 1024,
        hidden.len() == frames * 1024,
        exists|way: Seq<Seq<T>>, snaked: Seq<T>, mixed: Seq<T>|
            #[trigger] is_decoder_way(w, hidden, frames, calc, way, snaked, mixed, out),
{
    let steps = w.steps(frames, calc);
    every_step_is_passed(steps, hidden, out);
    let v = choose|v: Seq<Seq<T>>| #[trigger] passes(steps, hidden, out, v);
    assert(steps.len() == 8);
    assert forall|k: int| 0 <= k < 8 implies w.step_does(
        frames,
        k,
        calc,
        #[trigger] v[k],
        Ok(v[k + 1]),
    ) by {
        assert(steps[k](v[k], Ok(v[k + 1])));
    }
    lemma_decoder_entry(w, frames, calc, v[0], v[1]);
    assert forall|i: int| 0 <= i < 4 implies #[trigger] decoder_block_gives(
        w.blocks@[i],
        v[i + 1],
        (frames * raised(i)) as nat,
        block_inputs(w, i),
        raising_rates()[i],
        calc,
        v[i + 2],
    ) by {
        lemma_decoder_block(w, frames, calc, i, v[i + 1], v[i + 1 + 1]);
    }
    lemma_decoder_end(w, frames, calc, v[5], v[6], v[7], v[8]);
    let way = v.subrange(1, 6);
    assert forall|i: int| 0 <= i < 4 implies #[trigger] decoder_block_gives(
        w.blocks@[i],
        way[i],
        (frames * raised(i)) as nat,
        block_inputs(w, i),
        raising_rates()[i],
        calc,
        way[i + 1],
    ) by {
        assert(way[i] == v[i + 1]);
        assert(way[i + 1] == v[i + 2]);
    }
    assert(is_decoder_way(w, hidden, frames, calc, way, v[6], v[7], out));
}

proof fn lemma_decoder_entry<T: Copy, F: Fn(Op, T, T, T) -> T>(
    w: CodecDecoderValues<T>,
    frames: nat,
    calc: Calc<T, F>,
    x: Seq<T>,
    y: Seq<T>,
)
    requires
        w.step_does(frames, 0, calc, x, Ok(y)),
        w.blocks@.len() >= 4,
    ensures
        conv_does(
            (Conv1dFrameMajorSpec {
                frames: frames as usize,
                in_ch: 1024,
                out_ch: 1536,
                stride: 1,
                dilation: 1,
            }),
            x,
            w.entry_conv_weight@,
            w.entry_conv_bias@,
            calc,
            Ok(y),
        ),
{
    reveal(CodecDecoderValues::step_does);
}

proof fn lemma_decoder_block<T: Copy, F: Fn(Op, T, T, T) -> T>(
    w: CodecDecoderValues<T>,
    frames: nat,
    calc: Calc<T, F>,
    i: int,
    x: Seq<T>,
    y: Seq<T>,
)
    requires
        0 <= i < 4,
        w.step_does(frames, i + 1, calc, x, Ok(y)),
        w.blocks@.len() >= 4,
    ensures
        decoder_block_gives(
            w.blocks@[i],
            x,
            (frames * raised(i)) as nat,
            block_inputs(w, i),
            raising_rates()[i],
            calc,
            y,
        ),
{
    reveal(CodecDecoderValues::step_does);
    reveal(decoder_block_gives);
    decoder_frames_multiply(frames, i as nat);
    rates_undo_each_other(i);
}

proof fn lemma_decoder_end<T: Copy, F: Fn(Op, T, T, T) -> T>(
    w: CodecDecoderValues<T>,
    frames: nat,
    calc: Calc<T, F>,
    a: Seq<T>,
    b: Seq<T>,
    c: Seq<T>,
    d: Seq<T>,
)
    requires
        w.step_does(frames, 5, calc, a, Ok(b)),
        w.step_does(frames, 6, calc, b, Ok(c)),
        w.step_does(frames, 7, calc, c, Ok(d)),
        w.blocks@.len() >= 4,
    ensures
        is_snaked(
            a,
            decoder_channels(w.blocks@[3].index)->Ok_0 as int,
            w.tail_snake_alpha@,
            calc,
            b,
        ),
        conv_does(
            (Conv1dFrameMajorSpec {
                frames: (frames * 512) as usize,
                in_ch: decoder_channels(w.blocks@[3].index)->Ok_0,
                out_ch: 1,
                stride: 1,
                dilation: 1,
            }),
            b,
            w.output_conv_weight@,
            w.output_conv_bias@,
            calc,
            Ok(c),
        ),
        d.len() == c.len(),
        forall|i: int|
            0 <= i < c.len() ==> calc.gives(
                Op::Tanh,
                c[i],
                calc.zero,
                calc.zero,
                #[trigger] d[i],
            ),
{
    reveal(CodecDecoderValues::step_does);
    decoder_frames_multiply(frames, 4);
}

// ---------------------------------------------------------------------
// From codes to sound
// ---------------------------------------------------------------------

/// Whether a stage that doubles the frame rate makes these values of those.
#[verifier::opaque]
pub open spec fn doubling_gives<T: Copy, F: Fn(Op, T, T, T) -> T>(
    w: CodecStageValues<T>,
    x: Seq<T>,
    frames: nat,
    calc: Calc<T, F>,
    out: Seq<T>,
) -> bool {
    w.up_does(x, frames as usize, calc, Ok(out))
}

/// Two to a power.
pub open spec fn two_to(i: nat) -> nat
    decreases i,
{
    if i == 0 {
        1
    } else {
        2 * two_to((i - 1) as nat)
    }
}

/// After so many stages that double the frame rate there are as many frames for each one.
pub proof fn doubling_multiplies(frames: nat, i: nat)
    ensures
        crate::codec_modules::doubled(frames, i) == frames * two_to(i),
    decreases i,
{
    if i > 0 {
        doubling_multiplies(frames, (i - 1) as nat);
        let p = two_to((i - 1) as nat);
        let q = two_to(i);
        assert(2 * (frames * p) == frames * q) by (nonlinear_arith)
            requires
                q == 2 * p,
        ;
    } else {
        let q = two_to(i);
        assert(frames * q == frames) by (nonlinear_arith)
            requires
                q == 1,
        ;
    }
}

/// Raising the frame rate lets every stage double it, one after the other.
pub proof fn stages_double_in_turn<T: Copy, F: Fn(Op, T, T, T) -> T>(
    hidden: Seq<T>,
    n_frames: u32,
    stages: Seq<CodecStageValues<T>>,
    calc: Calc<T, F>,
    out: Seq<T>,
)
    requires
        upsample_does(hidden, n_frames, stages, calc, Ok(out)),
    ensures
        hidden.len() == n_frames * 1024,
        n_frames * two_to(stages.len()) <= u32::MAX,
        exists|way: Seq<Seq<T>>|
            {
                &&& #[trigger] way.len() == stages.len() + 1
                &&& way[0] == hidden
                &&& way[stages.len() as int] == out
                &&& forall|i: int|
                    0 <= i < stages.len() ==> doubling_gives(
                        #[trigger] stages[i],
                        way[i],
                        n_frames as nat * two_to(i as nat),
                        calc,
                        way[i + 1],
                    )
            },
{
    let steps = upsample_steps(n_frames as nat, stages, calc);
    every_step_is_passed(steps, hidden, out);
    let v = choose|v: Seq<Seq<T>>| #[trigger] passes(steps, hidden, out, v);
    let n = stages.len() as int;
    assert(steps.len() == n + 1);
    assert(steps[n](v[n], Ok(v[n + 1])));
    doubling_multiplies(n_frames as nat, stages.len());
    let way = v.take(n + 1);
    assert forall|i: int| 0 <= i < n implies doubling_gives(
        #[trigger] stages[i],
        way[i],
        n_frames as nat * two_to(i as nat),
        calc,
        way[i + 1],
    ) by {
        reveal(doubling_gives);
        doubling_multiplies(n_frames as nat, i as nat);
        assert(steps[i](v[i], Ok(v[i + 1])));
    }
    assert(way.len() == stages.len() + 1);
}

/// Frames of values become sound through the transformer behind the quantizers, the stages that raise
/// the frame rate, and the decoder, in this order.
pub proof fn latents_pass_transformer_stages_and_decoder<T: Copy, F: Fn(Op, T, T, T) -> T>(
    latents: Seq<T>,
    n_frames: u32,
    post: CodecModuleValues<T>,
    stages: Seq<CodecStageValues<T>>,
    decoder: CodecDecoderValues<T>,
    calc: Calc<T, F>,
    out: Seq<T>,
)
    requires
        crate::waveform::sound_does(latents, n_frames, post, stages, decoder, calc, Ok(out)),
    ensures
        latents.len() == n_frames * 1024,
        exists|a: Seq<T>, b: Seq<T>|
            {
                &&& #[trigger] transformer_does(
                    latents,
                    1024,
                    post.layers@,
                    128,
                    Some(post.norm@),
                    calc,
                    Ok(a),
                )
                &&& #[trigger] upsample_does(a, n_frames, stages, calc, Ok(b))
                &&& decoder.does(
                    b,
                    n_frames as nat * two_to(stages.len()),
                    1024,
                    calc,
                    Ok(out),
                )
            },
{
    let steps = latent_steps(n_frames, post, stages, calc);
    let m = choose|m: Result<Seq<T>, ErrorView>|
        #[trigger] flows(steps, latents, m) && match m {
            Err(e) => Ok::<Seq<T>, ErrorView>(out) == Err::<Seq<T>, ErrorView>(e),
            Ok(hidden) => decoder.does(
                hidden,
                crate::codec_modules::doubled(n_frames as nat, stages.len()),
                1024,
                calc,
                Ok::<Seq<T>, ErrorView>(out),
            ),
        };
    let b = m->Ok_0;
    every_step_is_passed(steps, latents, b);
    let v = choose|v: Seq<Seq<T>>| #[trigger] passes(steps, latents, b, v);
    assert(steps.len() == 2);
    assert(steps[0](v[0], Ok(v[1])));
    assert(steps[1](v[1], Ok(v[2])));
    doubling_multiplies(n_frames as nat, stages.len());
    assert(transformer_does(
        latents,
        1024,
        post.layers@,
        128,
        Some(post.norm@),
        calc,
        Ok::<Seq<T>, ErrorView>(v[1]),
    ));
    assert(upsample_does(v[1], n_frames, stages, calc, Ok::<Seq<T>, ErrorView>(b)));
}

// ---------------------------------------------------------------------
// From sound to frames
// ---------------------------------------------------------------------

/// Whether a stage that halves the frame rate makes these values of those.
#[verifier::opaque]
pub open spec fn halving_gives<T: Copy, F: Fn(Op, T, T, T) -> T>(
    w: CodecStageValues<T>,
    x: Seq<T>,
    frames: nat,
    calc: Calc<T, F>,
    out: Seq<T>,
) -> bool {
    w.down_does(x, frames as usize, calc, Ok(out))
}

/// How many frames are left after so many halvings, each without a last odd one.
pub open spec fn left_of(frames: nat, i: nat) -> nat
    decreases i,
{
    if i == 0 {
        frames
    } else {
        left_of(frames, (i - 1) as nat) / 2
    }
}

/// Halving leaves out a last odd frame.
pub proof fn halving_divides(frames: nat, i: nat)
    ensures
        crate::codec_modules::halved(frames, i) == left_of(frames, i),
    decreases i,
{
    if i > 0 {
        halving_divides(frames, (i - 1) as nat);
    }
}

/// Before the quantizers every stage halves the frame rate, one after the other, and a transformer
/// works on what is left.
pub proof fn stages_halve_before_the_transformer<T: Copy, F: Fn(Op, T, T, T) -> T>(
    latents: Seq<T>,
    n_frames: u32,
    stages: Seq<CodecStageValues<T>>,
    pre: CodecModuleValues<T>,
    calc: Calc<T, F>,
    out: Seq<T>,
)
    requires
        encode_does(latents, n_frames, stages, pre, calc, Ok(out)),
    ensures
        latents.len() == n_frames * 1024,
        exists|way: Seq<Seq<T>>|
            {
                &&& #[trigger] way.len() == stages.len() + 1
                &&& way[0] == latents
                &&& forall|i: int|
                    0 <= i < stages.len() ==> halving_gives(
                        #[trigger] stages[i],
                        way[i],
                        left_of(n_frames as nat, i as nat),
                        calc,
                        way[i + 1],
                    )
                &&& transformer_does(
                    way[stages.len() as int],
                    1024,
                    pre.layers@,
                    128,
                    Some(pre.norm@),
                    calc,
                    Ok(out),
                )
            },
{
    let steps = encode_steps(n_frames as nat, stages, pre, calc);
    every_step_is_passed(steps, latents, out);
    let v = choose|v: Seq<Seq<T>>| #[trigger] passes(steps, latents, out, v);
    let n = stages.len() as int;
    assert(steps.len() == n + 1);
    assert(steps[n](v[n], Ok(v[n + 1])));
    let way = v.take(n + 1);
    assert forall|i: int| 0 <= i < n implies halving_gives(
        #[trigger] stages[i],
        way[i],
        left_of(n_frames as nat, i as nat),
        calc,
        way[i + 1],
    ) by {
        reveal(halving_gives);
        halving_divides(n_frames as nat, i as nat);
        assert(steps[i](v[i], Ok(v[i + 1])));
    }
    assert(way.len() == stages.len() + 1);
}

// ---------------------------------------------------------------------
// The encoder
// ---------------------------------------------------------------------

/// Of how many samples one frame before encoder block `i` is made.
pub open spec fn gathered_in(i: int) -> int {
    if i <= 0 {
        1
    } else if i == 1 {
        2
    } else if i == 2 {
        8
    } else if i == 3 {
        64
    } else {
        512
    }
}

/// Samples are padded to whole frames of 2048, and every encoder block makes one frame of as many as
/// its rate says: 512 samples in all.
pub proof fn encoder_frames_divide(padded: nat, i: nat)
    requires
        padded % 2048 == 0,
        padded <= u32::MAX,
        i <= 4,
    ensures
        crate::codec_coder::encoder_frames(padded, i) * gathered_in(i as int) == padded,
        crate::codec_coder::encoder_frames(padded, i) == padded as int / gathered_in(i as int),
    decreases i,
{
    let n = padded / 512;
    assert(padded == 512 * n);
    assert(padded + 7 <= u32::MAX);
    if i > 0 {
        encoder_frames_divide(padded, (i - 1) as nat);
        let before = crate::codec_coder::encoder_frames(padded, (i - 1) as nat);
        if i == 1 {
            assert((512 * n + 2 - 1) / 2 == 256 * n);
        } else if i == 2 {
            assert(before == 256 * n);
            assert((256 * n + 4 - 1) / 4 == 64 * n);
        } else if i == 3 {
            assert(before == 64 * n);
            assert((64 * n + 8 - 1) / 8 == 8 * n);
        } else {
            assert(before == 8 * n);
            assert((8 * n + 8 - 1) / 8 == n as int);
        }
    }
}

/// Whether an encoder block makes these values of those.
#[verifier::opaque]
pub open spec fn encoder_block_gives<T: Copy, F: Fn(Op, T, T, T) -> T>(
    w: CodecEncoderBlockValues<T>,
    x: Seq<T>,
    frames: int,
    channels: usize,
    stride: usize,
    calc: Calc<T, F>,
    out: Seq<T>,
) -> bool {
    w.does(x, frames as usize, channels, stride, calc, Ok(out))
}

/// How many channels encoder block `i` takes in: 64, or what the block before it gives.
pub open spec fn encoder_inputs<T>(w: CodecEncoderValues<T>, i: int) -> usize {
    if i == 0 {
        64
    } else {
        encoder_channels(w.blocks@[i - 1].index)->Ok_0
    }
}

/// Whether this is the way through an encoder of four blocks: samples with zeros behind them, a
/// convolution to 64 channels, the blocks, a snake, and a convolution to 1024 channels.
pub open spec fn is_encoder_way<T: Copy, F: Fn(Op, T, T, T) -> T>(
    w: CodecEncoderValues<T>,
    audio: Seq<T>,
    padded: int,
    calc: Calc<T, F>,
    way: Seq<Seq<T>>,
    snaked: Seq<T>,
    out: Seq<T>,
) -> bool {
    let entry = Conv1dFrameMajorSpec {
        frames: padded as usize,
        in_ch: 1,
        out_ch: 64,
        stride: 1,
        dilation: 1,
    };
    let channels = encoder_channels(w.blocks@[3].index)->Ok_0;
    let end = Conv1dFrameMajorSpec {
        frames: (padded / 512) as usize,
        in_ch: channels,
        out_ch: 1024,
        stride: 1,
        dilation: 1,
    };
    &&& way.len() == 6
    &&& way[0].len() == padded
    &&& forall|i: int|
        0 <= i < padded ==> #[trigger] way[0][i] == (if i < audio.len() {
            audio[i]
        } else {
            calc.zero
        })
    &&& conv_does(
        entry,
        way[0],
        w.entry_conv_weight@,
        w.entry_conv_bias@,
        calc,
        Ok(way[1]),
    )
    &&& forall|i: int|
        0 <= i < 4 ==> #[trigger] encoder_block_gives(
            w.blocks@[i],
            way[i + 1],
            padded / gathered_in(i),
            encoder_inputs(w, i),
            lowering_rates()[i],
            calc,
            way[i + 2],
        )
    &&& is_snaked(way[5], channels as int, w.tail_snake_alpha@, calc, snaked)
    &&& conv_does(
        end,
        snaked,
        w.output_conv_weight@,
        w.output_conv_bias@,
        calc,
        Ok(out),
    )
}

/// The encoder makes frames of sound by a convolution, four blocks that lower the frame rate, a snake,
/// and a convolution. The sound is padded with zeros to whole frames of 2048 samples.
pub proof fn encoders_lower_padded_sound<T: Copy, F: Fn(Op, T, T, T) -> T>(
    audio: Seq<T>,
    w: CodecEncoderValues<T>,
    collect: bool,
    calc: Calc<T, F>,
    out: Seq<T>,
)
    requires
        crate::codec_coder::encoder_does(audio, w, collect, calc, Ok(out)),
        w.blocks@.len() >= 4,
    ensures
        exists|padded: int, way: Seq<Seq<T>>, snaked: Seq<T>|
            {
                &&& padded % 2048 == 0
                &&& audio.len() <= padded
                &&& padded < audio.len() + 2048 || (audio.len() == 0 && padded == 2048)
                &&& #[trigger] is_encoder_way(w, audio, padded, calc, way, snaked, out)
            },
{
    let padded = crate::codec_blocks::padded_count(audio.len(), 2048)->Ok_0 as nat;
    let start = crate::codec_coder::with_zeros(audio, padded, calc.zero);
    let steps = w.steps(padded, collect, calc);
    let m = choose|m: Result<Seq<T>, ErrorView>|
        #[trigger] flows(steps, start, m) && match m {
            Err(e) => Ok::<Seq<T>, ErrorView>(out) == Err::<Seq<T>, ErrorView>(e),
            Ok(v) => Ok::<Seq<T>, ErrorView>(out) == (match crate::codec_coder::size_error(
                padded,
                crate::codec_coder::encoder_frames(
                    padded,
                    crate::codec_coder::used_blocks(w.blocks@.len()),
                ),
            ) {
                Some(e) => Err::<Seq<T>, ErrorView>(e),
                None => Ok(v),
            }),
        };
    assert(m == Ok::<Seq<T>, ErrorView>(out));
    every_step_is_passed(steps, start, out);
    let v = choose|v: Seq<Seq<T>>| #[trigger] passes(steps, start, out, v);
    if audio.len() > 0 {
        crate::codec_blocks::padding_is_least(audio.len(), 2048, 0);
    }
    lemma_encoder_way(w, audio, padded, collect, calc, v, out);
}

proof fn lemma_encoder_way<T: Copy, F: Fn(Op, T, T, T) -> T>(
    w: CodecEncoderValues<T>,
    audio: Seq<T>,
    padded: nat,
    collect: bool,
    calc: Calc<T, F>,
    v: Seq<Seq<T>>,
    out: Seq<T>,
)
    requires
        passes(
            w.steps(padded, collect, calc),
            crate::codec_coder::with_zeros(audio, padded, calc.zero),
            out,
            v,
        ),
        w.blocks@.len() >= 4,
        padded % 2048 == 0,
        padded <= u32::MAX,
    ensures
        exists|way: Seq<Seq<T>>, snaked: Seq<T>|
            #[trigger] is_encoder_way(w, audio, padded as int, calc, way, snaked, out),
{
    let start = crate::codec_coder::with_zeros(audio, padded, calc.zero);
    lemma_encoder_work(w, padded, collect, calc, start, v, out, 0);
    lemma_encoder_work(w, padded, collect, calc, start, v, out, 5);
    lemma_encoder_work(w, padded, collect, calc, start, v, out, 6);
    lemma_encoder_ends(w, padded, calc, v[0], v[2], v[10], v[12], v[14]);
    let way = seq![v[0], v[2], v[4], v[6], v[8], v[10]];
    assert forall|i: int| 0 <= i < 4 implies #[trigger] encoder_block_gives(
        w.blocks@[i],
        way[i + 1],
        padded as int / gathered_in(i),
        encoder_inputs(w, i),
        lowering_rates()[i],
        calc,
        way[i + 2],
    ) by {
        lemma_encoder_work(w, padded, collect, calc, start, v, out, i + 1);
        lemma_encoder_step(w, padded, calc, i, v[2 * (i + 1)], v[2 * (i + 1) + 2]);
        assert(way[i + 1] == v[2 * (i + 1)]);
        assert(way[i + 2] == v[2 * (i + 1) + 2]);
    }
    assert(is_encoder_way(w, audio, padded as int, calc, way, v[12], out));
}

proof fn lemma_encoder_work<T: Copy, F: Fn(Op, T, T, T) -> T>(
    w: CodecEncoderValues<T>,
    padded: nat,
    collect: bool,
    calc: Calc<T, F>,
    start: Seq<T>,
    v: Seq<Seq<T>>,
    out: Seq<T>,
    k: int,
)
    requires
        passes(w.steps(padded, collect, calc), start, out, v),
        w.blocks@.len() >= 4,
        0 <= k < 7,
    ensures
        w.work_does(padded, k, calc, v[2 * k], Ok(v[2 * k + 2])),
        v[0] == start,
        v[14] == out,
{
    let steps = w.steps(padded, collect, calc);
    assert(steps.len() == 14);
    assert(steps[2 * k](v[2 * k], Ok(v[2 * k + 1])));
    assert(steps[2 * k + 1](v[2 * k + 1], Ok(v[2 * k + 1 + 1])));
    assert((2 * k) / 2 == k && (2 * k) % 2 == 0);
    assert((2 * k + 1) / 2 == k && (2 * k + 1) % 2 == 1);
}

proof fn lemma_encoder_step<T: Copy, F: Fn(Op, T, T, T) -> T>(
    w: CodecEncoderValues<T>,
    padded: nat,
    calc: Calc<T, F>,
    i: int,
    x: Seq<T>,
    y: Seq<T>,
)
    requires
        0 <= i < 4,
        w.work_does(padded, i + 1, calc, x, Ok(y)),
        w.blocks@.len() >= 4,
        padded % 2048 == 0,
        padded <= u32::MAX,
    ensures
        encoder_block_gives(
            w.blocks@[i],
            x,
            padded as int / gathered_in(i),
            encoder_inputs(w, i),
            lowering_rates()[i],
            calc,
            y,
        ),
{
    lemma_encoder_block(w, padded, calc, i, x, y);
    encoder_frames_divide(padded, i as nat);
    rates_undo_each_other(i);
}

proof fn lemma_encoder_block<T: Copy, F: Fn(Op, T, T, T) -> T>(
    w: CodecEncoderValues<T>,
    padded: nat,
    calc: Calc<T, F>,
    i: int,
    x: Seq<T>,
    y: Seq<T>,
)
    requires
        0 <= i < 4,
        w.work_does(padded, i + 1, calc, x, Ok(y)),
        w.blocks@.len() >= 4,
        crate::codec_coder::encoder_frames(padded, i as nat) <= usize::MAX,
    ensures
        encoder_block_gives(
            w.blocks@[i],
            x,
            crate::codec_coder::encoder_frames(padded, i as nat) as int,
            encoder_inputs(w, i),
            crate::codec_coder::encoder_rate(i),
            calc,
            y,
        ),
{
    reveal(encoder_block_gives);
    assert(w.block_does(padded, i, calc, x, Ok(y))) by {
        reveal(CodecEncoderValues::work_does);
    }
    let m = choose|m: Result<Seq<T>, ErrorView>|
        #[trigger] w.blocks@[i].does(
            x,
            crate::codec_coder::encoder_frames(padded, i as nat) as usize,
            crate::codec_coder::channels_before(w.blocks@, i),
            crate::codec_coder::encoder_rate(i),
            calc,
            m,
        ) && match m {
            Err(e) => Ok::<Seq<T>, ErrorView>(y) == Err::<Seq<T>, ErrorView>(e),
            Ok(v) => match crate::codec_blocks::frames_after(
                crate::codec_coder::encoder_frames(padded, i as nat),
                crate::codec_coder::encoder_rate(i) as nat,
            ) {
                Err(e) => Ok::<Seq<T>, ErrorView>(y) == Err::<Seq<T>, ErrorView>(e),
                Ok(_) => Ok::<Seq<T>, ErrorView>(y) == Ok::<Seq<T>, ErrorView>(v),
            },
        };
    assert(m == Ok::<Seq<T>, ErrorView>(y));
}

proof fn lemma_encoder_ends<T: Copy, F: Fn(Op, T, T, T) -> T>(
    w: CodecEncoderValues<T>,
    padded: nat,
    calc: Calc<T, F>,
    a: Seq<T>,
    b: Seq<T>,
    c: Seq<T>,
    d: Seq<T>,
    e: Seq<T>,
)
    requires
        w.work_does(padded, 0, calc, a, Ok(b)),
        w.work_does(padded, 5, calc, c, Ok(d)),
        w.work_does(padded, 6, calc, d, Ok(e)),
        w.blocks@.len() >= 4,
        padded % 2048 == 0,
        padded <= u32::MAX,
    ensures
        conv_does(
            (Conv1dFrameMajorSpec {
                frames: padded as usize,
                in_ch: 1,
                out_ch: 64,
                stride: 1,
                dilation: 1,
            }),
            a,
            w.entry_conv_weight@,
            w.entry_conv_bias@,
            calc,
            Ok(b),
        ),
        is_snaked(
            c,
            encoder_channels(w.blocks@[3].index)->Ok_0 as int,
            w.tail_snake_alpha@,
            calc,
            d,
        ),
        conv_does(
            (Conv1dFrameMajorSpec {
                frames: (padded / 512) as usize,
                in_ch: encoder_channels(w.blocks@[3].index)->Ok_0,
                out_ch: 1024,
                stride: 1,
                dilation: 1,
            }),
            d,
            w.output_conv_weight@,
            w.output_conv_bias@,
            calc,
            Ok(e),
        ),
{
    reveal(CodecEncoderValues::work_does);
    encoder_frames_divide(padded, 4);
}

} // verus!
