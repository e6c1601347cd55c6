//! Which tensor of a file every weight is.
use crate::codec_coder_weights::{
    CodecDecoderBlockF16Weights, CodecDecoderBlockValues, CodecDecoderF16Weights,
    CodecDecoderValues, CodecEncoderBlockF16Weights, CodecEncoderBlockValues,
    CodecEncoderF16Weights, CodecEncoderValues,
};
use crate::codec_names::{
    decoder_prefix, downsample_prefix, encoder_prefix, layer_prefix, residual_prefix,
    semantic_prefix, upsample_prefix,
};
use crate::codec_weights::{
    are_layers, CodecDownsampleStageF16Weights, CodecQuantizerF16Weights, CodecQuantizerValues,
    CodecResidualUnitF16Weights, CodecResidualUnitValues, CodecStageValues,
    CodecTransformerLayerF16Weights, CodecTransformerLayerValues, CodecUpsampleStageF16Weights,
};
use crate::fast_ar::FastArLayerValues;
use crate::fast_run::{are_layer_values, is_fast_layer_of, FastArLayerF16Weights};
use crate::gguf::FileView;
use crate::numeric::{Calc, Op};
use crate::slow_layer::LayerView;
use crate::slow_ar::SlowArLayerShape;
use crate::slow_run::is_layer_view;
use crate::slow_weights::{are_values, is_tensor, wide_of};
use crate::tensor::F16TensorView;
use crate::text::dec;
use vstd::prelude::*;

verus! {

/// Whether values are those of the tensor under a name, each by its own bits.
#[verifier::opaque]
pub open spec fn holds<T: Copy, F: Fn(Op, T, T, T) -> T>(
    f: FileView,
    file: Seq<u8>,
    name: Seq<char>,
    calc: Calc<T, F>,
    values: Seq<T>,
) -> bool {
    &&& values.len() == wide_of(f, file, name)->Ok_0.values.len()
    &&& forall|i: int|
        0 <= i < values.len() ==> calc.gives(
            Op::Single(wide_of(f, file, name)->Ok_0.values[i]),
            calc.zero,
            calc.zero,
            calc.zero,
            #[trigger] values[i],
        )
}

proof fn lemma_holds<T: Copy, F: Fn(Op, T, T, T) -> T>(
    t: F16TensorView,
    f: FileView,
    file: Seq<u8>,
    name: Seq<char>,
    calc: Calc<T, F>,
    values: Seq<T>,
)
    requires
        is_tensor(t, f, file, name),
        are_values(t@.values, calc, values),
    ensures
        holds(f, file, name, calc, values),
{
    reveal(holds);
}

proof fn lemma_bits_hold<T: Copy, F: Fn(Op, T, T, T) -> T>(
    f: FileView,
    file: Seq<u8>,
    name: Seq<char>,
    calc: Calc<T, F>,
    values: Seq<T>,
)
    requires
        are_values(wide_of(f, file, name)->Ok_0.values, calc, values),
    ensures
        holds(f, file, name, calc, values),
{
    reveal(holds);
}

// ---------------------------------------------------------------------
// The transformers
// ---------------------------------------------------------------------

/// The weights of a layer of the slow transformer are the tensors that are named after the layer and
/// what they are for.
pub proof fn slow_layers_are_their_tensors<T: Copy, F: Fn(Op, T, T, T) -> T>(
    f: FileView,
    file: Seq<u8>,
    layer: usize,
    shape: SlowArLayerShape,
    calc: Calc<T, F>,
    w: LayerView<T>,
)
    requires
        is_layer_view(f, file, layer, shape, calc, w),
    ensures
        w.shape == shape,
        holds(f, file, "layers."@ + dec(layer as nat) + ".attention_norm.weight"@, calc, w.attention_norm_weight),
        holds(f, file, "layers."@ + dec(layer as nat) + ".attention.q_norm.weight"@, calc, w.q_norm_weight),
        holds(f, file, "layers."@ + dec(layer as nat) + ".attention.k_norm.weight"@, calc, w.k_norm_weight),
        holds(f, file, "layers."@ + dec(layer as nat) + ".attention.wqkv.weight"@, calc, w.wqkv_weight),
        holds(f, file, "layers."@ + dec(layer as nat) + ".attention.wo.weight"@, calc, w.output_weight),
        holds(f, file, "layers."@ + dec(layer as nat) + ".ffn_norm.weight"@, calc, w.ffn_norm_weight),
        holds(f, file, "layers."@ + dec(layer as nat) + ".feed_forward.w1.weight"@, calc, w.feed_forward_w1_weight),
        holds(f, file, "layers."@ + dec(layer as nat) + ".feed_forward.w2.weight"@, calc, w.feed_forward_w2_weight),
        holds(f, file, "layers."@ + dec(layer as nat) + ".feed_forward.w3.weight"@, calc, w.feed_forward_w3_weight),
{
    lemma_bits_hold(f, file, "layers."@ + dec(layer as nat) + ".attention_norm.weight"@, calc, w.attention_norm_weight);
    lemma_bits_hold(f, file, "layers."@ + dec(layer as nat) + ".attention.q_norm.weight"@, calc, w.q_norm_weight);
    lemma_bits_hold(f, file, "layers."@ + dec(layer as nat) + ".attention.k_norm.weight"@, calc, w.k_norm_weight);
    lemma_bits_hold(f, file, "layers."@ + dec(layer as nat) + ".attention.wqkv.weight"@, calc, w.wqkv_weight);
    lemma_bits_hold(f, file, "layers."@ + dec(layer as nat) + ".attention.wo.weight"@, calc, w.output_weight);
    lemma_bits_hold(f, file, "layers."@ + dec(layer as nat) + ".ffn_norm.weight"@, calc, w.ffn_norm_weight);
    lemma_bits_hold(f, file, "layers."@ + dec(layer as nat) + ".feed_forward.w1.weight"@, calc, w.feed_forward_w1_weight);
    lemma_bits_hold(f, file, "layers."@ + dec(layer as nat) + ".feed_forward.w2.weight"@, calc, w.feed_forward_w2_weight);
    lemma_bits_hold(f, file, "layers."@ + dec(layer as nat) + ".feed_forward.w3.weight"@, calc, w.feed_forward_w3_weight);
}

/// The weights of a layer of the fast transformer are the tensors that are named after the layer and
/// what they are for.
pub proof fn fast_layers_are_their_tensors<T: Copy, F: Fn(Op, T, T, T) -> T>(
    f: FileView,
    file: Seq<u8>,
    layer: usize,
    w: FastArLayerF16Weights,
    calc: Calc<T, F>,
    v: FastArLayerValues<T>,
)
    requires
        is_fast_layer_of(w, f, file, layer),
        are_layer_values(w, calc, v),
    ensures
        holds(f, file, "fast_layers."@ + dec(layer as nat) + ".attention_norm.weight"@, calc, v.attention_norm@),
        holds(f, file, "fast_layers."@ + dec(layer as nat) + ".attention.wqkv.weight"@, calc, v.wqkv@),
        holds(f, file, "fast_layers."@ + dec(layer as nat) + ".attention.wo.weight"@, calc, v.output@),
        holds(f, file, "fast_layers."@ + dec(layer as nat) + ".ffn_norm.weight"@, calc, v.ffn_norm@),
        holds(f, file, "fast_layers."@ + dec(layer as nat) + ".feed_forward.w1.weight"@, calc, v.feed_forward_w1@),
        holds(f, file, "fast_layers."@ + dec(layer as nat) + ".feed_forward.w2.weight"@, calc, v.feed_forward_w2@),
        holds(f, file, "fast_layers."@ + dec(layer as nat) + ".feed_forward.w3.weight"@, calc, v.feed_forward_w3@),
{
    lemma_holds(w.attention_norm, f, file, "fast_layers."@ + dec(layer as nat) + ".attention_norm.weight"@, calc, v.attention_norm@);
    lemma_holds(w.wqkv, f, file, "fast_layers."@ + dec(layer as nat) + ".attention.wqkv.weight"@, calc, v.wqkv@);
    lemma_holds(w.output, f, file, "fast_layers."@ + dec(layer as nat) + ".attention.wo.weight"@, calc, v.output@);
    lemma_holds(w.ffn_norm, f, file, "fast_layers."@ + dec(layer as nat) + ".ffn_norm.weight"@, calc, v.ffn_norm@);
    lemma_holds(w.feed_forward_w1, f, file, "fast_layers."@ + dec(layer as nat) + ".feed_forward.w1.weight"@, calc, v.feed_forward_w1@);
    lemma_holds(w.feed_forward_w2, f, file, "fast_layers."@ + dec(layer as nat) + ".feed_forward.w2.weight"@, calc, v.feed_forward_w2@);
    lemma_holds(w.feed_forward_w3, f, file, "fast_layers."@ + dec(layer as nat) + ".feed_forward.w3.weight"@, calc, v.feed_forward_w3@);
}

// ---------------------------------------------------------------------
// The codec
// ---------------------------------------------------------------------

/// The weights of a transformer layer of the codec are the tensors under its prefix.
pub proof fn codec_layers_are_their_tensors<T: Copy, F: Fn(Op, T, T, T) -> T>(
    f: FileView,
    file: Seq<u8>,
    prefix: Seq<char>,
    w: CodecTransformerLayerF16Weights,
    calc: Calc<T, F>,
    v: CodecTransformerLayerValues<T>,
)
    requires
        w.are_under(f, file, prefix),
        v.come_from_transformer_layer(w, calc),
    ensures
        holds(f, file, prefix + ".attention.wqkv.weight"@, calc, v.attention_wqkv@),
        holds(f, file, prefix + ".attention.wo.weight"@, calc, v.attention_output@),
        holds(f, file, prefix + ".attention_norm.weight"@, calc, v.attention_norm@),
        holds(f, file, prefix + ".ffn_norm.weight"@, calc, v.ffn_norm@),
        holds(f, file, prefix + ".feed_forward.w1.weight"@, calc, v.feed_forward_w1@),
        holds(f, file, prefix + ".feed_forward.w2.weight"@, calc, v.feed_forward_w2@),
        holds(f, file, prefix + ".feed_forward.w3.weight"@, calc, v.feed_forward_w3@),
        holds(f, file, prefix + ".attention_layer_scale.gamma"@, calc, v.attention_layer_scale@),
        holds(f, file, prefix + ".ffn_layer_scale.gamma"@, calc, v.ffn_layer_scale@),
{
    lemma_holds(w.attention_wqkv, f, file, prefix + ".attention.wqkv.weight"@, calc, v.attention_wqkv@);
    lemma_holds(w.attention_output, f, file, prefix + ".attention.wo.weight"@, calc, v.attention_output@);
    lemma_holds(w.attention_norm, f, file, prefix + ".attention_norm.weight"@, calc, v.attention_norm@);
    lemma_holds(w.ffn_norm, f, file, prefix + ".ffn_norm.weight"@, calc, v.ffn_norm@);
    lemma_holds(w.feed_forward_w1, f, file, prefix + ".feed_forward.w1.weight"@, calc, v.feed_forward_w1@);
    lemma_holds(w.feed_forward_w2, f, file, prefix + ".feed_forward.w2.weight"@, calc, v.feed_forward_w2@);
    lemma_holds(w.feed_forward_w3, f, file, prefix + ".feed_forward.w3.weight"@, calc, v.feed_forward_w3@);
    lemma_holds(w.attention_layer_scale, f, file, prefix + ".attention_layer_scale.gamma"@, calc, v.attention_layer_scale@);
    lemma_holds(w.ffn_layer_scale, f, file, prefix + ".ffn_layer_scale.gamma"@, calc, v.ffn_layer_scale@);
}

/// The weights of a stage that halves the frame rate are the tensors under its prefix.
pub proof fn halving_stages_are_their_tensors<T: Copy, F: Fn(Op, T, T, T) -> T>(
    f: FileView,
    file: Seq<u8>,
    prefix: Seq<char>,
    w: CodecDownsampleStageF16Weights,
    calc: Calc<T, F>,
    v: CodecStageValues<T>,
)
    requires
        w.are_under(f, file, prefix),
        v.come_from_downsample_stage(w, calc),
    ensures
        holds(f, file, prefix + ".0.conv.weight"@, calc, v.conv_weight@),
        holds(f, file, prefix + ".0.conv.bias"@, calc, v.conv_bias@),
        holds(f, file, prefix + ".1.gamma"@, calc, v.convnext_gamma@),
        holds(f, file, prefix + ".1.dwconv.conv.weight"@, calc, v.dwconv_weight@),
        holds(f, file, prefix + ".1.dwconv.conv.bias"@, calc, v.dwconv_bias@),
        holds(f, file, prefix + ".1.norm.weight"@, calc, v.norm_weight@),
        holds(f, file, prefix + ".1.norm.bias"@, calc, v.norm_bias@),
        holds(f, file, prefix + ".1.pwconv1.weight"@, calc, v.pwconv1_weight@),
        holds(f, file, prefix + ".1.pwconv1.bias"@, calc, v.pwconv1_bias@),
        holds(f, file, prefix + ".1.pwconv2.weight"@, calc, v.pwconv2_weight@),
        holds(f, file, prefix + ".1.pwconv2.bias"@, calc, v.pwconv2_bias@),
{
    lemma_holds(w.conv_weight, f, file, prefix + ".0.conv.weight"@, calc, v.conv_weight@);
    lemma_holds(w.conv_bias, f, file, prefix + ".0.conv.bias"@, calc, v.conv_bias@);
    lemma_holds(w.convnext_gamma, f, file, prefix + ".1.gamma"@, calc, v.convnext_gamma@);
    lemma_holds(w.dwconv_weight, f, file, prefix + ".1.dwconv.conv.weight"@, calc, v.dwconv_weight@);
    lemma_holds(w.dwconv_bias, f, file, prefix + ".1.dwconv.conv.bias"@, calc, v.dwconv_bias@);
    lemma_holds(w.norm_weight, f, file, prefix + ".1.norm.weight"@, calc, v.norm_weight@);
    lemma_holds(w.norm_bias, f, file, prefix + ".1.norm.bias"@, calc, v.norm_bias@);
    lemma_holds(w.pwconv1_weight, f, file, prefix + ".1.pwconv1.weight"@, calc, v.pwconv1_weight@);
    lemma_holds(w.pwconv1_bias, f, file, prefix + ".1.pwconv1.bias"@, calc, v.pwconv1_bias@);
    lemma_holds(w.pwconv2_weight, f, file, prefix + ".1.pwconv2.weight"@, calc, v.pwconv2_weight@);
    lemma_holds(w.pwconv2_bias, f, file, prefix + ".1.pwconv2.bias"@, calc, v.pwconv2_bias@);
}

/// The weights of a stage that doubles the frame rate are the tensors under its prefix.
pub proof fn doubling_stages_are_their_tensors<T: Copy, F: Fn(Op, T, T, T) -> T>(
    f: FileView,
    file: Seq<u8>,
    prefix: Seq<char>,
    w: CodecUpsampleStageF16Weights,
    calc: Calc<T, F>,
    v: CodecStageValues<T>,
)
    requires
        w.are_under(f, file, prefix),
        v.come_from_upsample_stage(w, calc),
    ensures
        holds(f, file, prefix + ".0.conv.weight"@, calc, v.conv_weight@),
        holds(f, file, prefix + ".0.conv.bias"@, calc, v.conv_bias@),
        holds(f, file, prefix + ".1.gamma"@, calc, v.convnext_gamma@),
        holds(f, file, prefix + ".1.dwconv.conv.weight"@, calc, v.dwconv_weight@),
        holds(f, file, prefix + ".1.dwconv.conv.bias"@, calc, v.dwconv_bias@),
        holds(f, file, prefix + ".1.norm.weight"@, calc, v.norm_weight@),
        holds(f, file, prefix + ".1.norm.bias"@, calc, v.norm_bias@),
        holds(f, file, prefix + ".1.pwconv1.weight"@, calc, v.pwconv1_weight@),
        holds(f, file, prefix + ".1.pwconv1.bias"@, calc, v.pwconv1_bias@),
        holds(f, file, prefix + ".1.pwconv2.weight"@, calc, v.pwconv2_weight@),
        holds(f, file, prefix + ".1.pwconv2.bias"@, calc, v.pwconv2_bias@),
{
    lemma_holds(w.conv_transpose_weight, f, file, prefix + ".0.conv.weight"@, calc, v.conv_weight@);
    lemma_holds(w.conv_transpose_bias, f, file, prefix + ".0.conv.bias"@, calc, v.conv_bias@);
    lemma_holds(w.convnext_gamma, f, file, prefix + ".1.gamma"@, calc, v.convnext_gamma@);
    lemma_holds(w.dwconv_weight, f, file, prefix + ".1.dwconv.conv.weight"@, calc, v.dwconv_weight@);
    lemma_holds(w.dwconv_bias, f, file, prefix + ".1.dwconv.conv.bias"@, calc, v.dwconv_bias@);
    lemma_holds(w.norm_weight, f, file, prefix + ".1.norm.weight"@, calc, v.norm_weight@);
    lemma_holds(w.norm_bias, f, file, prefix + ".1.norm.bias"@, calc, v.norm_bias@);
    lemma_holds(w.pwconv1_weight, f, file, prefix + ".1.pwconv1.weight"@, calc, v.pwconv1_weight@);
    lemma_holds(w.pwconv1_bias, f, file, prefix + ".1.pwconv1.bias"@, calc, v.pwconv1_bias@);
    lemma_holds(w.pwconv2_weight, f, file, prefix + ".1.pwconv2.weight"@, calc, v.pwconv2_weight@);
    lemma_holds(w.pwconv2_bias, f, file, prefix + ".1.pwconv2.bias"@, calc, v.pwconv2_bias@);
}

/// The weights of a residual unit are the tensors under its prefix.
pub proof fn residual_units_are_their_tensors<T: Copy, F: Fn(Op, T, T, T) -> T>(
    f: FileView,
    file: Seq<u8>,
    prefix: Seq<char>,
    w: CodecResidualUnitF16Weights,
    calc: Calc<T, F>,
    v: CodecResidualUnitValues<T>,
)
    requires
        w.are_under(f, file, prefix),
        v.come_from_residual_unit(w, calc),
    ensures
        holds(f, file, prefix + ".block.0.alpha"@, calc, v.snake0_alpha@),
        holds(f, file, prefix + ".block.1.conv.weight"@, calc, v.conv0_weight@),
        holds(f, file, prefix + ".block.1.conv.bias"@, calc, v.conv0_bias@),
        holds(f, file, prefix + ".block.2.alpha"@, calc, v.snake1_alpha@),
        holds(f, file, prefix + ".block.3.conv.weight"@, calc, v.conv1_weight@),
        holds(f, file, prefix + ".block.3.conv.bias"@, calc, v.conv1_bias@),
{
    lemma_holds(w.snake0_alpha, f, file, prefix + ".block.0.alpha"@, calc, v.snake0_alpha@);
    lemma_holds(w.conv0_weight, f, file, prefix + ".block.1.conv.weight"@, calc, v.conv0_weight@);
    lemma_holds(w.conv0_bias, f, file, prefix + ".block.1.conv.bias"@, calc, v.conv0_bias@);
    lemma_holds(w.snake1_alpha, f, file, prefix + ".block.2.alpha"@, calc, v.snake1_alpha@);
    lemma_holds(w.conv1_weight, f, file, prefix + ".block.3.conv.weight"@, calc, v.conv1_weight@);
    lemma_holds(w.conv1_bias, f, file, prefix + ".block.3.conv.bias"@, calc, v.conv1_bias@);
}

/// The weights of a quantizer are the tensors under its prefix.
pub proof fn quantizers_are_their_tensors<T: Copy, F: Fn(Op, T, T, T) -> T>(
    f: FileView,
    file: Seq<u8>,
    prefix: Seq<char>,
    w: CodecQuantizerF16Weights,
    calc: Calc<T, F>,
    v: CodecQuantizerValues<T>,
)
    requires
        w.are_under(f, file, prefix),
        v.come_from_quantizer(w, calc),
    ensures
        holds(f, file, prefix + ".in_proj.weight"@, calc, v.in_proj_weight@),
        holds(f, file, prefix + ".in_proj.bias"@, calc, v.in_proj_bias@),
        holds(f, file, prefix + ".out_proj.weight"@, calc, v.out_proj_weight@),
        holds(f, file, prefix + ".out_proj.bias"@, calc, v.out_proj_bias@),
        holds(f, file, prefix + ".codebook.weight"@, calc, v.codebook_weight@),
{
    lemma_holds(w.in_proj_weight, f, file, prefix + ".in_proj.weight"@, calc, v.in_proj_weight@);
    lemma_holds(w.in_proj_bias, f, file, prefix + ".in_proj.bias"@, calc, v.in_proj_bias@);
    lemma_holds(w.out_proj_weight, f, file, prefix + ".out_proj.weight"@, calc, v.out_proj_weight@);
    lemma_holds(w.out_proj_bias, f, file, prefix + ".out_proj.bias"@, calc, v.out_proj_bias@);
    lemma_holds(w.codebook_weight, f, file, prefix + ".codebook.weight"@, calc, v.codebook_weight@);
}

/// The weights of an encoder block are the tensors under its prefix, and its units those under theirs.
/// The last block has a transformer.
pub proof fn encoder_blocks_are_their_tensors<T: Copy, F: Fn(Op, T, T, T) -> T>(
    f: FileView,
    file: Seq<u8>,
    index: usize,
    w: CodecEncoderBlockF16Weights,
    calc: Calc<T, F>,
    v: CodecEncoderBlockValues<T>,
)
    requires
        w.are_of(f, file, index),
        v.come_from(w, calc),
    ensures
        holds(f, file, ("encoder.block."@ + dec(index as nat) + ".block"@) + ".3.alpha"@, calc, v.snake_alpha@),
        holds(f, file, ("encoder.block."@ + dec(index as nat) + ".block"@) + ".4.conv.weight"@, calc, v.down_conv_weight@),
        holds(f, file, ("encoder.block."@ + dec(index as nat) + ".block"@) + ".4.conv.bias"@, calc, v.down_conv_bias@),
        v.index == index,
        w.residual_1.are_under(f, file, ("encoder.block."@ + dec(index as nat) + ".block"@) + ".0"@),
        w.residual_2.are_under(f, file, ("encoder.block."@ + dec(index as nat) + ".block"@) + ".1"@),
        w.residual_3.are_under(f, file, ("encoder.block."@ + dec(index as nat) + ".block"@) + ".2"@),
        v.residual_1.come_from_residual_unit(w.residual_1, calc),
        v.residual_2.come_from_residual_unit(w.residual_2, calc),
        v.residual_3.come_from_residual_unit(w.residual_3, calc),
        index != 4 ==> v.transformer_layers@.len() == 0 && v.transformer_norm_weight is None,
        index == 4 ==> {
            &&& v.transformer_layers@.len() == 4
            &&& forall|i: int|
                0 <= i < 4 ==> (#[trigger] w.transformer_layers@[i]).are_under(
                    f,
                    file,
                    ("encoder.block."@ + dec(index as nat) + ".block"@) + ".5"@ + ".layers."@ + dec(i as nat),
                ) && v.transformer_layers@[i].come_from_transformer_layer(
                    w.transformer_layers@[i],
                    calc,
                )
            &&& v.transformer_norm_weight is Some
            &&& holds(f, file, ("encoder.block."@ + dec(index as nat) + ".block"@) + ".5.norm.weight"@, calc, v.transformer_norm_weight->0@)
        },
{
    lemma_holds(w.snake_alpha, f, file, ("encoder.block."@ + dec(index as nat) + ".block"@) + ".3.alpha"@, calc, v.snake_alpha@);
    lemma_holds(w.down_conv_weight, f, file, ("encoder.block."@ + dec(index as nat) + ".block"@) + ".4.conv.weight"@, calc, v.down_conv_weight@);
    lemma_holds(w.down_conv_bias, f, file, ("encoder.block."@ + dec(index as nat) + ".block"@) + ".4.conv.bias"@, calc, v.down_conv_bias@);
    if index == 4 {
        lemma_holds(
            w.transformer_norm_weight->0,
            f,
            file,
            ("encoder.block."@ + dec(index as nat) + ".block"@) + ".5.norm.weight"@,
            calc,
            v.transformer_norm_weight->0@,
        );
        assert forall|i: int| 0 <= i < 4 implies (#[trigger] w.transformer_layers@[i]).are_under(
            f,
            file,
            ("encoder.block."@ + dec(index as nat) + ".block"@) + ".5"@ + ".layers."@ + dec(i as nat),
        ) && v.transformer_layers@[i].come_from_transformer_layer(
            w.transformer_layers@[i],
            calc,
        ) by {
            let _ = v.transformer_layers@[i];
        }
    }
}

/// The weights of a decoder block are the tensors under its prefix, and its units those under theirs.
pub proof fn decoder_blocks_are_their_tensors<T: Copy, F: Fn(Op, T, T, T) -> T>(
    f: FileView,
    file: Seq<u8>,
    index: usize,
    w: CodecDecoderBlockF16Weights,
    calc: Calc<T, F>,
    v: CodecDecoderBlockValues<T>,
)
    requires
        w.are_of(f, file, index),
        v.come_from(w, calc),
    ensures
        holds(f, file, ("decoder.model."@ + dec(index as nat)) + ".block.0.alpha"@, calc, v.snake_alpha@),
        holds(f, file, ("decoder.model."@ + dec(index as nat)) + ".block.1.conv.weight"@, calc, v.conv_transpose_weight@),
        holds(f, file, ("decoder.model."@ + dec(index as nat)) + ".block.1.conv.bias"@, calc, v.conv_transpose_bias@),
        v.index == index,
        w.residual_1.are_under(f, file, ("decoder.model."@ + dec(index as nat)) + ".block.2"@),
        w.residual_2.are_under(f, file, ("decoder.model."@ + dec(index as nat)) + ".block.3"@),
        w.residual_3.are_under(f, file, ("decoder.model."@ + dec(index as nat)) + ".block.4"@),
        v.residual_1.come_from_residual_unit(w.residual_1, calc),
        v.residual_2.come_from_residual_unit(w.residual_2, calc),
        v.residual_3.come_from_residual_unit(w.residual_3, calc),
{
    lemma_holds(w.snake_alpha, f, file, ("decoder.model."@ + dec(index as nat)) + ".block.0.alpha"@, calc, v.snake_alpha@);
    lemma_holds(w.conv_transpose_weight, f, file, ("decoder.model."@ + dec(index as nat)) + ".block.1.conv.weight"@, calc, v.conv_transpose_weight@);
    lemma_holds(w.conv_transpose_bias, f, file, ("decoder.model."@ + dec(index as nat)) + ".block.1.conv.bias"@, calc, v.conv_transpose_bias@);
}

/// The weights of the encoder are the tensors under its prefix, with the four blocks counted from one.
pub proof fn encoders_are_their_tensors<T: Copy, F: Fn(Op, T, T, T) -> T>(
    f: FileView,
    file: Seq<u8>,
    w: CodecEncoderF16Weights,
    calc: Calc<T, F>,
    v: CodecEncoderValues<T>,
)
    requires
        w.are_of(f, file),
        v.come_from(w, calc),
    ensures
        holds(f, file, "encoder.block.0.conv.weight"@, calc, v.entry_conv_weight@),
        holds(f, file, "encoder.block.0.conv.bias"@, calc, v.entry_conv_bias@),
        holds(f, file, "encoder.block.5.alpha"@, calc, v.tail_snake_alpha@),
        holds(f, file, "encoder.block.6.conv.weight"@, calc, v.output_conv_weight@),
        holds(f, file, "encoder.block.6.conv.bias"@, calc, v.output_conv_bias@),
        v.blocks@.len() == 4,
        forall|i: int|
            0 <= i < 4 ==> (#[trigger] v.blocks@[i]).come_from(w.blocks@[i], calc)
                && w.blocks@[i].are_of(f, file, (i + 1) as usize),
{
    lemma_holds(w.entry_conv_weight, f, file, "encoder.block.0.conv.weight"@, calc, v.entry_conv_weight@);
    lemma_holds(w.entry_conv_bias, f, file, "encoder.block.0.conv.bias"@, calc, v.entry_conv_bias@);
    lemma_holds(w.tail_snake_alpha, f, file, "encoder.block.5.alpha"@, calc, v.tail_snake_alpha@);
    lemma_holds(w.output_conv_weight, f, file, "encoder.block.6.conv.weight"@, calc, v.output_conv_weight@);
    lemma_holds(w.output_conv_bias, f, file, "encoder.block.6.conv.bias"@, calc, v.output_conv_bias@);
}

/// The weights of the decoder are the tensors under its prefix, with the four blocks counted from one.
pub proof fn decoders_are_their_tensors<T: Copy, F: Fn(Op, T, T, T) -> T>(
    f: FileView,
    file: Seq<u8>,
    w: CodecDecoderF16Weights,
    calc: Calc<T, F>,
    v: CodecDecoderValues<T>,
)
    requires
        w.are_of(f, file),
        v.come_from(w, calc),
    ensures
        holds(f, file, "decoder.model.0.conv.weight"@, calc, v.entry_conv_weight@),
        holds(f, file, "decoder.model.0.conv.bias"@, calc, v.entry_conv_bias@),
        holds(f, file, "decoder.model.5.alpha"@, calc, v.tail_snake_alpha@),
        holds(f, file, "decoder.model.6.conv.weight"@, calc, v.output_conv_weight@),
        holds(f, file, "decoder.model.6.conv.bias"@, calc, v.output_conv_bias@),
        v.blocks@.len() == 4,
        forall|i: int|
            0 <= i < 4 ==> (#[trigger] v.blocks@[i]).come_from(w.blocks@[i], calc)
                && w.blocks@[i].are_of(f, file, (i + 1) as usize),
{
    lemma_holds(w.entry_conv_weight, f, file, "decoder.model.0.conv.weight"@, calc, v.entry_conv_weight@);
    lemma_holds(w.entry_conv_bias, f, file, "decoder.model.0.conv.bias"@, calc, v.entry_conv_bias@);
    lemma_holds(w.tail_snake_alpha, f, file, "decoder.model.5.alpha"@, calc, v.tail_snake_alpha@);
    lemma_holds(w.output_conv_weight, f, file, "decoder.model.6.conv.weight"@, calc, v.output_conv_weight@);
    lemma_holds(w.output_conv_bias, f, file, "decoder.model.6.conv.bias"@, calc, v.output_conv_bias@);
}

/// The parts of the codec are told by what their tensors are named after.
pub proof fn codec_parts_are_told_by_their_names(index: usize, module: Seq<char>)
    ensures
        semantic_prefix() == "quantizer.semantic_quantizer.quantizers.0"@,
        residual_prefix(index) == "quantizer.quantizer.quantizers."@ + dec(index as nat),
        downsample_prefix(index) == "quantizer.downsample."@ + dec(index as nat),
        upsample_prefix(index) == "quantizer.upsample."@ + dec(index as nat),
        encoder_prefix(index) == "encoder.block."@ + dec(index as nat) + ".block"@,
        decoder_prefix(index) == "decoder.model."@ + dec(index as nat),
        layer_prefix(module, index) == module + ".layers."@ + dec(index as nat),
{
}

/// The layers of a module of the codec are named after the module, and counted from zero.
pub proof fn modules_count_their_layers(
    layers: Seq<CodecTransformerLayerF16Weights>,
    f: FileView,
    file: Seq<u8>,
    module: Seq<char>,
    i: int,
)
    requires
        are_layers(layers, f, file, module),
        0 <= i < layers.len(),
        layers.len() <= usize::MAX,
    ensures
        layers[i].are_under(f, file, module + ".layers."@ + dec(i as nat)),
{
    let _ = layers[i];
}

} // verus!
