//! Which dimensions weights must have.
use crate::codec_laws::lowering_rates;
use crate::codec_registry::{channels_after, kernel_of};
use crate::codec_weights::{
    CodecDownsampleStageF16Weights, CodecQuantizerF16Weights, CodecResidualUnitF16Weights,
    CodecTransformerLayerF16Weights, CodecUpsampleStageF16Weights,
};
use crate::fast_run::fast_shape_error;
use crate::slow_ar::SlowArLayerShape;
use crate::slow_weights::{head_dims_error, layer_dims_error};
use vstd::prelude::*;

verus! {

/// A transformer layer of the codec is accepted exactly where its tensors have the dimensions of a
/// layer of 1024 values.
pub proof fn codec_layers_have_their_dimensions(w: CodecTransformerLayerF16Weights)
    ensures
        w.dims_finding() is None <==> {
            &&& w.attention_wqkv@.dimensions == seq![1024usize, 3072usize]
            &&& w.attention_output@.dimensions == seq![1024usize, 1024usize]
            &&& w.feed_forward_w1@.dimensions == seq![1024usize, 3072usize]
            &&& w.feed_forward_w3@.dimensions == seq![1024usize, 3072usize]
            &&& w.feed_forward_w2@.dimensions == seq![3072usize, 1024usize]
            &&& w.ffn_norm@.dimensions == seq![1024usize]
            &&& w.attention_norm@.dimensions == seq![1024usize]
            &&& w.attention_layer_scale@.dimensions == seq![1024usize]
            &&& w.ffn_layer_scale@.dimensions == seq![1024usize]
        },
{
}

/// A stage that halves the frame rate is accepted exactly where its tensors have the dimensions of
/// one: two frames become one, each channel meets seven frames, and values are widened four times.
pub proof fn halving_stages_have_their_dimensions(w: CodecDownsampleStageF16Weights)
    ensures
        w.dims_finding() is None <==> {
            &&& w.conv_weight@.dimensions == seq![2usize, 1024usize, 1024usize]
            &&& w.conv_bias@.dimensions == seq![1024usize]
            &&& w.convnext_gamma@.dimensions == seq![1024usize]
            &&& w.dwconv_weight@.dimensions == seq![7usize, 1usize, 1024usize]
            &&& w.dwconv_bias@.dimensions == seq![1024usize]
            &&& w.norm_weight@.dimensions == seq![1024usize]
            &&& w.norm_bias@.dimensions == seq![1024usize]
            &&& w.pwconv1_weight@.dimensions == seq![1024usize, 4096usize]
            &&& w.pwconv1_bias@.dimensions == seq![4096usize]
            &&& w.pwconv2_weight@.dimensions == seq![4096usize, 1024usize]
            &&& w.pwconv2_bias@.dimensions == seq![1024usize]
        },
{
}

/// A stage that doubles the frame rate is accepted exactly where its tensors have the dimensions of
/// one.
pub proof fn doubling_stages_have_their_dimensions(w: CodecUpsampleStageF16Weights)
    ensures
        w.dims_finding() is None <==> {
            &&& w.conv_transpose_weight@.dimensions == seq![2usize, 1024usize, 1024usize]
            &&& w.conv_transpose_bias@.dimensions == seq![1024usize]
            &&& w.convnext_gamma@.dimensions == seq![1024usize]
            &&& w.dwconv_weight@.dimensions == seq![7usize, 1usize, 1024usize]
            &&& w.dwconv_bias@.dimensions == seq![1024usize]
            &&& w.norm_weight@.dimensions == seq![1024usize]
            &&& w.norm_bias@.dimensions == seq![1024usize]
            &&& w.pwconv1_weight@.dimensions == seq![1024usize, 4096usize]
            &&& w.pwconv1_bias@.dimensions == seq![4096usize]
            &&& w.pwconv2_weight@.dimensions == seq![4096usize, 1024usize]
            &&& w.pwconv2_bias@.dimensions == seq![1024usize]
        },
{
}

/// A residual unit is accepted exactly where its first kernel meets seven frames, its second one, and
/// everything has its channels.
pub proof fn residual_units_have_their_dimensions(w: CodecResidualUnitF16Weights, channels: usize)
    ensures
        w.dims_finding(channels) is None <==> {
            &&& w.snake0_alpha@.dimensions == seq![1usize, channels, 1usize]
            &&& w.conv0_weight@.dimensions == seq![7usize, channels, channels]
            &&& w.conv0_bias@.dimensions == seq![channels]
            &&& w.snake1_alpha@.dimensions == seq![1usize, channels, 1usize]
            &&& w.conv1_weight@.dimensions == seq![1usize, channels, channels]
            &&& w.conv1_bias@.dimensions == seq![channels]
        },
{
}

/// A layer of the slow transformer is accepted exactly where its tensors have the dimensions of its
/// shape: queries, keys and values come out of one table.
pub proof fn slow_layers_have_their_dimensions(
    attention_norm: Seq<usize>,
    q_norm: Seq<usize>,
    k_norm: Seq<usize>,
    wqkv: Seq<usize>,
    output: Seq<usize>,
    ffn_norm: Seq<usize>,
    w1: Seq<usize>,
    w2: Seq<usize>,
    w3: Seq<usize>,
    s: SlowArLayerShape,
)
    requires
        s.head_count * s.head_dim + 2 * (s.head_count_kv * s.head_dim) <= usize::MAX,
    ensures
        layer_dims_error(
            attention_norm,
            q_norm,
            k_norm,
            wqkv,
            output,
            ffn_norm,
            w1,
            w2,
            w3,
            s,
        ) is None <==> {
            &&& attention_norm == seq![s.hidden_size]
            &&& q_norm == seq![s.head_dim]
            &&& k_norm == seq![s.head_dim]
            &&& wqkv == seq![
                s.hidden_size,
                (s.head_count * s.head_dim + 2 * (s.head_count_kv * s.head_dim)) as usize,
            ]
            &&& output == seq![(s.head_count * s.head_dim) as usize, s.hidden_size]
            &&& ffn_norm == seq![s.hidden_size]
            &&& w1 == seq![s.hidden_size, s.feed_forward_size]
            &&& w2 == seq![s.feed_forward_size, s.hidden_size]
            &&& w3 == seq![s.hidden_size, s.feed_forward_size]
        },
{
    let q = s.head_count * s.head_dim;
    let kv = s.head_count_kv * s.head_dim;
    assert(0 <= q) by (nonlinear_arith)
        requires
            q == s.head_count * s.head_dim,
            s.head_count >= 0,
            s.head_dim >= 0,
    ;
    assert(0 <= kv) by (nonlinear_arith)
        requires
            kv == s.head_count_kv * s.head_dim,
            s.head_count_kv >= 0,
            s.head_dim >= 0,
    ;
    assert(s.all() is Ok);
}

/// The output of the slow transformer is accepted exactly where the norm is a list, the embeddings are
/// a table, and a row of the table is as long as the norm. A layer of the fast one is accepted where
/// its first table leads from 2560 values to 9728.
pub proof fn heads_have_their_dimensions(
    norm: Seq<usize>,
    embeddings: Seq<usize>,
    layer: usize,
    w1: Seq<usize>,
)
    ensures
        head_dims_error(norm, embeddings) is None <==> norm.len() == 1 && embeddings.len() == 2
            && embeddings[0] == norm[0],
        fast_shape_error(layer, w1) is None <==> w1 == seq![2560usize, 9728usize],
{
}

/// The kernel of an encoder block is twice as long as its rate, and the channels double from block to
/// block.
pub proof fn kernels_span_two_steps(index: usize)
    requires
        1 <= index <= 4,
    ensures
        kernel_of(index) == 2 * lowering_rates()[index - 1],
        channels_after(index) == 2 * channels_after((index - 1) as usize),
        channels_after(4) == 1024,
{
}

/// A quantizer is accepted exactly where its tensors have the dimensions of codes of 8 values and
/// frames of 1024, with 4096 codes where it is the semantic one, and 1024 elsewhere.
pub proof fn quantizers_have_their_dimensions(w: CodecQuantizerF16Weights, semantic: bool)
    ensures
        w.dims_finding(semantic) is None <==> {
            &&& w.in_proj_weight@.dimensions == seq![1usize, 1024usize, 8usize]
            &&& w.in_proj_bias@.dimensions == seq![8usize]
            &&& w.out_proj_weight@.dimensions == seq![1usize, 8usize, 1024usize]
            &&& w.out_proj_bias@.dimensions == seq![1024usize]
            &&& semantic ==> w.codebook_weight@.dimensions == seq![8usize, 4096usize]
            &&& !semantic ==> w.codebook_weight@.dimensions == seq![8usize, 1024usize]
        },
{
}

} // verus!
