//! The codec's tensors: what they are for, which must be there, and what shape they have.
use crate::codec_names::{
    downsample_prefix, encoder_prefix, layer_prefix, module_layers, residual_prefix,
    semantic_prefix, upsample_prefix, CodecDownsampleStageWeights, CodecDownsampleWeights,
    CodecEncoderBlockWeights, CodecEncoderWeights, CodecQuantizerWeights, CodecResidualUnitWeights,
    CodecTransformerLayerWeights, CodecUpsampleStageWeights, CodecUpsampleWeights,
};
use crate::error::{core_error_text, message, ErrorView, InferError};
use crate::gguf::{
    copy_tensors, element_count_of, ggml_name, tensor_byte_len, text_pairs, FileView, GgmlType,
    GgufFile, GgufTensorInfo, TensorView,
};
use crate::gguf_summary::{copy_pairs, metadata_value, value_of};
use crate::number::{parse_usize, unsigned_value};
use crate::registry::{
    counting, index_of, indexed_layer_set, is_counting, layers_in, same_dimensions, tensor_under,
    NamedTensors,
};
use crate::text::{
    begins_with, char_lists, chars_le, dec, dec_usize, from_chars, join_strings, joined, list_text,
    longs, pieces, set_text, show_longs, show_longs_by_x, show_size_set, sizes, split_chars,
    starts_with, str_eq, strings, text_le, to_chars,
};
use crate::tokenizer_s2cpp::{find_from, lemma_next_at, next_at};
use vstd::prelude::*;
use vstd::slice::slice_subrange;
use vstd::string::*;

verus! {

// ---------------------------------------------------------------------
// Required tensors
// ---------------------------------------------------------------------

/// Names and dimensions as mathematical values.
pub open spec fn pair_views(v: Seq<(String, Vec<u64>)>) -> Seq<(Seq<char>, Seq<u64>)> {
    v.map_values(|p: (String, Vec<u64>)| (p.0@, p.1@))
}

proof fn lemma_pairs_joined(a: Seq<(String, Vec<u64>)>, b: Seq<(String, Vec<u64>)>)
    ensures
        pair_views(a + b) == pair_views(a) + pair_views(b),
{
    assert(pair_views(a + b) =~= pair_views(a) + pair_views(b));
}

fn put(list: &mut Vec<(String, Vec<u64>)>, name: &str, dims: Vec<u64>)
    ensures
        pair_views(final(list)@) == pair_views(old(list)@).push((name@, dims@)),
{
    let ghost before = list@;
    let ghost d = dims@;
    list.push((String::from_str(name), dims));
    assert(pair_views(list@) =~= pair_views(before).push((name@, d)));
}

fn put_all(list: &mut Vec<(String, Vec<u64>)>, more: Vec<(String, Vec<u64>)>)
    ensures
        pair_views(final(list)@) == pair_views(old(list)@) + pair_views(more@),
{
    let ghost before = list@;
    let ghost added = more@;
    let mut more = more;
    list.append(&mut more);
    proof {
        lemma_pairs_joined(before, added);
    }
}

fn one(a: u64) -> (r: Vec<u64>)
    ensures
        r@ == seq![a],
{
    let mut v: Vec<u64> = Vec::new();
    v.push(a);
    assert(v@ =~= seq![a]);
    v
}

fn two(a: u64, b: u64) -> (r: Vec<u64>)
    ensures
        r@ == seq![a, b],
{
    let mut v: Vec<u64> = Vec::new();
    v.push(a);
    v.push(b);
    assert(v@ =~= seq![a, b]);
    v
}

fn three(a: u64, b: u64, c: u64) -> (r: Vec<u64>)
    ensures
        r@ == seq![a, b, c],
{
    let mut v: Vec<u64> = Vec::new();
    v.push(a);
    v.push(b);
    v.push(c);
    assert(v@ =~= seq![a, b, c]);
    v
}

/// The tensors of a quantizer, with their dimensions.
pub open spec fn quantizer_list(prefix: Seq<char>, size: u64) -> Seq<(Seq<char>, Seq<u64>)> {
    seq![
        (prefix + ".in_proj.weight"@, seq![1u64, 1024, 8]),
        (prefix + ".in_proj.bias"@, seq![8u64]),
        (prefix + ".out_proj.weight"@, seq![1u64, 8, 1024]),
        (prefix + ".out_proj.bias"@, seq![1024u64]),
        (prefix + ".codebook.weight"@, seq![8u64, size]),
    ]
}

fn quantizer_required(w: &CodecQuantizerWeights, size: u64, prefix: Ghost<Seq<char>>) -> (r: Vec<(String, Vec<u64>)>)
    requires
        w.under(prefix@, w.index),
    ensures
        pair_views(r@) == quantizer_list(prefix@, size),
{
    let mut out: Vec<(String, Vec<u64>)> = Vec::new();
    assert(pair_views(out@) =~= Seq::empty());
    put(&mut out, w.in_proj_weight.as_str(), three(1, 1024, 8));
    put(&mut out, w.in_proj_bias.as_str(), one(8));
    put(&mut out, w.out_proj_weight.as_str(), three(1, 8, 1024));
    put(&mut out, w.out_proj_bias.as_str(), one(1024));
    put(&mut out, w.codebook_weight.as_str(), two(8, size));
    assert(pair_views(out@) =~= quantizer_list(prefix@, size));
    out
}

/// The tensors of a transformer layer, with their dimensions.
pub open spec fn layer_list(prefix: Seq<char>) -> Seq<(Seq<char>, Seq<u64>)> {
    seq![
        (prefix + ".attention.wqkv.weight"@, seq![1024u64, 3072]),
        (prefix + ".attention.wo.weight"@, seq![1024u64, 1024]),
        (prefix + ".feed_forward.w1.weight"@, seq![1024u64, 3072]),
        (prefix + ".feed_forward.w3.weight"@, seq![1024u64, 3072]),
        (prefix + ".feed_forward.w2.weight"@, seq![3072u64, 1024]),
        (prefix + ".ffn_norm.weight"@, seq![1024u64]),
        (prefix + ".attention_norm.weight"@, seq![1024u64]),
        (prefix + ".attention_layer_scale.gamma"@, seq![1024u64]),
        (prefix + ".ffn_layer_scale.gamma"@, seq![1024u64]),
    ]
}

fn layer_required(w: &CodecTransformerLayerWeights, module: Ghost<Seq<char>>) -> (r: Vec<(String, Vec<u64>)>)
    requires
        w.of(module@, w.layer),
    ensures
        pair_views(r@) == layer_list(layer_prefix(module@, w.layer)),
{
    let mut out: Vec<(String, Vec<u64>)> = Vec::new();
    assert(pair_views(out@) =~= Seq::empty());
    put(&mut out, w.attention_wqkv.as_str(), two(1024, 3072));
    put(&mut out, w.attention_output.as_str(), two(1024, 1024));
    put(&mut out, w.feed_forward_w1.as_str(), two(1024, 3072));
    put(&mut out, w.feed_forward_w3.as_str(), two(1024, 3072));
    put(&mut out, w.feed_forward_w2.as_str(), two(3072, 1024));
    put(&mut out, w.ffn_norm.as_str(), one(1024));
    put(&mut out, w.attention_norm.as_str(), one(1024));
    put(&mut out, w.attention_layer_scale.as_str(), one(1024));
    put(&mut out, w.ffn_layer_scale.as_str(), one(1024));
    assert(pair_views(out@) =~= layer_list(layer_prefix(module@, w.layer)));
    out
}

/// The tensors of a stage that changes the frame rate, with their dimensions.
pub open spec fn stage_list(prefix: Seq<char>) -> Seq<(Seq<char>, Seq<u64>)> {
    seq![
        (prefix + ".0.conv.weight"@, seq![2u64, 1024, 1024]),
        (prefix + ".0.conv.bias"@, seq![1024u64]),
        (prefix + ".1.gamma"@, seq![1024u64]),
        (prefix + ".1.dwconv.conv.weight"@, seq![7u64, 1, 1024]),
        (prefix + ".1.dwconv.conv.bias"@, seq![1024u64]),
        (prefix + ".1.norm.weight"@, seq![1024u64]),
        (prefix + ".1.norm.bias"@, seq![1024u64]),
        (prefix + ".1.pwconv1.weight"@, seq![1024u64, 4096]),
        (prefix + ".1.pwconv1.bias"@, seq![4096u64]),
        (prefix + ".1.pwconv2.weight"@, seq![4096u64, 1024]),
        (prefix + ".1.pwconv2.bias"@, seq![1024u64]),
    ]
}

fn downsample_required(w: &CodecDownsampleStageWeights) -> (r: Vec<(String, Vec<u64>)>)
    requires
        w.of(w.index),
    ensures
        pair_views(r@) == stage_list(downsample_prefix(w.index)),
{
    let mut out: Vec<(String, Vec<u64>)> = Vec::new();
    assert(pair_views(out@) =~= Seq::empty());
    put(&mut out, w.conv_weight.as_str(), three(2, 1024, 1024));
    put(&mut out, w.conv_bias.as_str(), one(1024));
    put(&mut out, w.convnext_gamma.as_str(), one(1024));
    put(&mut out, w.dwconv_weight.as_str(), three(7, 1, 1024));
    put(&mut out, w.dwconv_bias.as_str(), one(1024));
    put(&mut out, w.norm_weight.as_str(), one(1024));
    put(&mut out, w.norm_bias.as_str(), one(1024));
    put(&mut out, w.pwconv1_weight.as_str(), two(1024, 4096));
    put(&mut out, w.pwconv1_bias.as_str(), one(4096));
    put(&mut out, w.pwconv2_weight.as_str(), two(4096, 1024));
    put(&mut out, w.pwconv2_bias.as_str(), one(1024));
    assert(pair_views(out@) =~= stage_list(downsample_prefix(w.index)));
    out
}

fn upsample_required(w: &CodecUpsampleStageWeights) -> (r: Vec<(String, Vec<u64>)>)
    requires
        w.of(w.index),
    ensures
        pair_views(r@) == stage_list(upsample_prefix(w.index)),
{
    let mut out: Vec<(String, Vec<u64>)> = Vec::new();
    assert(pair_views(out@) =~= Seq::empty());
    put(&mut out, w.conv_transpose_weight.as_str(), three(2, 1024, 1024));
    put(&mut out, w.conv_transpose_bias.as_str(), one(1024));
    put(&mut out, w.convnext_gamma.as_str(), one(1024));
    put(&mut out, w.dwconv_weight.as_str(), three(7, 1, 1024));
    put(&mut out, w.dwconv_bias.as_str(), one(1024));
    put(&mut out, w.norm_weight.as_str(), one(1024));
    put(&mut out, w.norm_bias.as_str(), one(1024));
    put(&mut out, w.pwconv1_weight.as_str(), two(1024, 4096));
    put(&mut out, w.pwconv1_bias.as_str(), one(4096));
    put(&mut out, w.pwconv2_weight.as_str(), two(4096, 1024));
    put(&mut out, w.pwconv2_bias.as_str(), one(1024));
    assert(pair_views(out@) =~= stage_list(upsample_prefix(w.index)));
    out
}

/// The tensors of a residual unit, with their dimensions.
pub open spec fn unit_list(prefix: Seq<char>, channels: u64) -> Seq<(Seq<char>, Seq<u64>)> {
    seq![
        (prefix + ".block.0.alpha"@, seq![1u64, channels, 1]),
        (prefix + ".block.1.conv.weight"@, seq![7u64, channels, channels]),
        (prefix + ".block.1.conv.bias"@, seq![channels]),
        (prefix + ".block.2.alpha"@, seq![1u64, channels, 1]),
        (prefix + ".block.3.conv.weight"@, seq![1u64, channels, channels]),
        (prefix + ".block.3.conv.bias"@, seq![channels]),
    ]
}

fn unit_required(w: &CodecResidualUnitWeights, channels: u64, prefix: Ghost<Seq<char>>) -> (r: Vec<(String, Vec<u64>)>)
    requires
        w.under(prefix@),
    ensures
        pair_views(r@) == unit_list(prefix@, channels),
{
    let mut out: Vec<(String, Vec<u64>)> = Vec::new();
    assert(pair_views(out@) =~= Seq::empty());
    put(&mut out, w.snake0_alpha.as_str(), three(1, channels, 1));
    put(&mut out, w.conv0_weight.as_str(), three(7, channels, channels));
    put(&mut out, w.conv0_bias.as_str(), one(channels));
    put(&mut out, w.snake1_alpha.as_str(), three(1, channels, 1));
    put(&mut out, w.conv1_weight.as_str(), three(1, channels, channels));
    put(&mut out, w.conv1_bias.as_str(), one(channels));
    assert(pair_views(out@) =~= unit_list(prefix@, channels));
    out
}

/// The tensors of the first `n` layers of a module.
pub open spec fn layers_list(module: Seq<char>, n: nat) -> Seq<(Seq<char>, Seq<u64>)>
    decreases n,
{
    if n == 0 {
        Seq::empty()
    } else {
        layers_list(module, (n - 1) as nat) + layer_list(layer_prefix(module, (n - 1) as usize))
    }
}

fn layers_required(layers: &Vec<CodecTransformerLayerWeights>, module: Ghost<Seq<char>>) -> (r: Vec<
    (String, Vec<u64>),
>)
    requires
        forall|i: int| 0 <= i < layers@.len() ==> (#[trigger] layers@[i]).of(module@, i as usize),
    ensures
        pair_views(r@) == layers_list(module@, layers@.len()),
{
    let mut out: Vec<(String, Vec<u64>)> = Vec::new();
    let count: usize = layers.len();
    let mut i: usize = 0;
    assert(pair_views(out@) =~= layers_list(module@, 0));
    while i < count
        invariant
            i <= count,
            count == layers@.len(),
            forall|k: int|
                0 <= k < layers@.len() ==> (#[trigger] layers@[k]).of(module@, k as usize),
            pair_views(out@) == layers_list(module@, i as nat),
        decreases count - i,
    {
        assert(layers@[i as int].of(module@, i));
        let part = layer_required(&layers[i], module);
        put_all(&mut out, part);
        i = i + 1;
    }
    out
}

/// The tensors of a transformer, with their dimensions.
pub open spec fn module_list(module: Seq<char>) -> Seq<(Seq<char>, Seq<u64>)> {
    seq![
        (module + ".freqs_cis"@, seq![2u64, 32, 4096]),
        (module + ".causal_mask"@, seq![4096u64, 4096]),
        (module + ".norm.weight"@, seq![1024u64]),
    ] + layers_list(module, 8)
}

fn module_required(module: &str, layers: &Vec<CodecTransformerLayerWeights>) -> (r: Vec<
    (String, Vec<u64>),
>)
    requires
        layers@.len() == 8,
        forall|i: int| 0 <= i < 8 ==> (#[trigger] layers@[i]).of(module@, i as usize),
    ensures
        pair_views(r@) == module_list(module@),
{
    let mut out: Vec<(String, Vec<u64>)> = Vec::new();
    assert(pair_views(out@) =~= Seq::empty());
    put(&mut out, String::from_str(module).concat(".freqs_cis").as_str(), three(2, 32, 4096));
    put(&mut out, String::from_str(module).concat(".causal_mask").as_str(), two(4096, 4096));
    put(&mut out, String::from_str(module).concat(".norm.weight").as_str(), one(1024));
    assert(pair_views(out@) =~= seq![
        (module@ + ".freqs_cis"@, seq![2u64, 32, 4096]),
        (module@ + ".causal_mask"@, seq![4096u64, 4096]),
        (module@ + ".norm.weight"@, seq![1024u64]),
    ]);
    let part = layers_required(layers, Ghost(module@));
    put_all(&mut out, part);
    out
}

/// How many channels come out of an encoder block; the zeroth is the entry.
pub open spec fn channels_after(index: usize) -> u64 {
    if index == 0 {
        64
    } else if index == 1 {
        128
    } else if index == 2 {
        256
    } else if index == 3 {
        512
    } else {
        1024
    }
}

/// How many taps the kernel has by which an encoder block lowers the frame rate.
pub open spec fn kernel_of(index: usize) -> u64 {
    if index == 1 {
        4
    } else if index == 2 {
        8
    } else {
        16
    }
}

pub(crate) fn block_channels(index: usize) -> (r: u64)
    ensures
        r == channels_after(index),
{
    if index == 0 {
        64
    } else if index == 1 {
        128
    } else if index == 2 {
        256
    } else if index == 3 {
        512
    } else {
        1024
    }
}

pub(crate) fn block_kernel(index: usize) -> (r: u64)
    ensures
        r == kernel_of(index),
{
    if index == 1 {
        4
    } else if index == 2 {
        8
    } else {
        16
    }
}

/// The tensors of an encoder block, with their dimensions.
pub open spec fn block_list(index: usize) -> Seq<(Seq<char>, Seq<u64>)> {
    let prefix = encoder_prefix(index);
    let before = channels_after((index - 1) as usize);
    let after = channels_after(index);
    let plain = unit_list(prefix + ".0"@, before) + unit_list(prefix + ".1"@, before) + unit_list(
        prefix + ".2"@,
        before,
    ) + seq![
        (prefix + ".3.alpha"@, seq![1u64, before, 1]),
        (prefix + ".4.conv.weight"@, seq![kernel_of(index), before, after]),
        (prefix + ".4.conv.bias"@, seq![after]),
    ];
    if index == 4 {
        plain + seq![
            (prefix + ".5.freqs_cis"@, seq![2u64, 32, 16384]),
            (prefix + ".5.causal_mask"@, seq![16384u64, 16384]),
            (prefix + ".5.norm.weight"@, seq![1024u64]),
        ] + layers_list(prefix + ".5"@, 4)
    } else {
        plain
    }
}

fn block_required(w: &CodecEncoderBlockWeights) -> (r: Vec<(String, Vec<u64>)>)
    requires
        w.of(w.index),
        1 <= w.index <= 4,
    ensures
        pair_views(r@) == block_list(w.index),
{
    let before: u64 = block_channels(w.index - 1);
    let after: u64 = block_channels(w.index);
    let ghost prefix = encoder_prefix(w.index);
    let mut out = unit_required(&w.residual_1, before, Ghost(prefix + ".0"@));
    let second = unit_required(&w.residual_2, before, Ghost(prefix + ".1"@));
    put_all(&mut out, second);
    let third = unit_required(&w.residual_3, before, Ghost(prefix + ".2"@));
    put_all(&mut out, third);
    let mut tail: Vec<(String, Vec<u64>)> = Vec::new();
    assert(pair_views(tail@) =~= Seq::empty());
    put(&mut tail, w.snake_alpha.as_str(), three(1, before, 1));
    put(&mut tail, w.down_conv_weight.as_str(), three(block_kernel(w.index), before, after));
    put(&mut tail, w.down_conv_bias.as_str(), one(after));
    assert(pair_views(tail@) =~= seq![
        (prefix + ".3.alpha"@, seq![1u64, before, 1]),
        (prefix + ".4.conv.weight"@, seq![kernel_of(w.index), before, after]),
        (prefix + ".4.conv.bias"@, seq![after]),
    ]);
    put_all(&mut out, tail);
    if w.index == 4 {
        let digits = dec_usize(w.index);
        let module = String::from_str("encoder.block.").concat(digits.as_str()).concat(".block");
        let mut roots: Vec<(String, Vec<u64>)> = Vec::new();
        assert(pair_views(roots@) =~= Seq::empty());
        put(
            &mut roots,
            String::from_str(module.as_str()).concat(".5.freqs_cis").as_str(),
            three(2, 32, 16384),
        );
        put(
            &mut roots,
            String::from_str(module.as_str()).concat(".5.causal_mask").as_str(),
            two(16384, 16384),
        );
        put(
            &mut roots,
            String::from_str(module.as_str()).concat(".5.norm.weight").as_str(),
            one(1024),
        );
        assert(pair_views(roots@) =~= seq![
            (prefix + ".5.freqs_cis"@, seq![2u64, 32, 16384]),
            (prefix + ".5.causal_mask"@, seq![16384u64, 16384]),
            (prefix + ".5.norm.weight"@, seq![1024u64]),
        ]);
        put_all(&mut out, roots);
        let layers = layers_required(&w.transformer_layers, Ghost(prefix + ".5"@));
        put_all(&mut out, layers);
    }
    out
}

/// The tensors of the encoder, with their dimensions.
pub open spec fn encoder_list() -> Seq<(Seq<char>, Seq<u64>)> {
    seq![
        ("encoder.block.0.conv.weight"@, seq![7u64, 1, 64]),
        ("encoder.block.0.conv.bias"@, seq![64u64]),
    ] + block_list(1) + block_list(2) + block_list(3) + block_list(4) + seq![
        ("encoder.block.5.alpha"@, seq![1u64, 1024, 1]),
        ("encoder.block.6.conv.weight"@, seq![3u64, 1024, 1024]),
        ("encoder.block.6.conv.bias"@, seq![1024u64]),
    ]
}

fn encoder_required(w: &CodecEncoderWeights) -> (r: Vec<(String, Vec<u64>)>)
    requires
        w.whole(),
    ensures
        pair_views(r@) == encoder_list(),
{
    let mut out: Vec<(String, Vec<u64>)> = Vec::new();
    assert(pair_views(out@) =~= Seq::empty());
    put(&mut out, w.entry_conv_weight.as_str(), three(7, 1, 64));
    put(&mut out, w.entry_conv_bias.as_str(), one(64));
    assert(pair_views(out@) =~= seq![
        ("encoder.block.0.conv.weight"@, seq![7u64, 1, 64]),
        ("encoder.block.0.conv.bias"@, seq![64u64]),
    ]);
    assert(w.blocks@[0].of(1) && w.blocks@[1].of(2) && w.blocks@[2].of(3) && w.blocks@[3].of(4));
    let first = block_required(&w.blocks[0]);
    put_all(&mut out, first);
    let second = block_required(&w.blocks[1]);
    put_all(&mut out, second);
    let third = block_required(&w.blocks[2]);
    put_all(&mut out, third);
    let fourth = block_required(&w.blocks[3]);
    put_all(&mut out, fourth);
    let mut tail: Vec<(String, Vec<u64>)> = Vec::new();
    assert(pair_views(tail@) =~= Seq::empty());
    put(&mut tail, w.tail_snake_alpha.as_str(), three(1, 1024, 1));
    put(&mut tail, w.output_conv_weight.as_str(), three(3, 1024, 1024));
    put(&mut tail, w.output_conv_bias.as_str(), one(1024));
    assert(pair_views(tail@) =~= seq![
        ("encoder.block.5.alpha"@, seq![1u64, 1024, 1]),
        ("encoder.block.6.conv.weight"@, seq![3u64, 1024, 1024]),
        ("encoder.block.6.conv.bias"@, seq![1024u64]),
    ]);
    put_all(&mut out, tail);
    out
}

/// The tensors of the first `n` of the other quantizers.
pub open spec fn residual_list(n: nat) -> Seq<(Seq<char>, Seq<u64>)>
    decreases n,
{
    if n == 0 {
        Seq::empty()
    } else {
        residual_list((n - 1) as nat) + quantizer_list(residual_prefix((n - 1) as usize), 1024)
    }
}

/// The tensors that a codec must have, with their dimensions.
pub open spec fn codec_list() -> Seq<(Seq<char>, Seq<u64>)> {
    quantizer_list(semantic_prefix(), 4096) + residual_list(9) + encoder_list() + module_list(
        "quantizer.pre_module"@,
    ) + module_list("quantizer.post_module"@) + stage_list(downsample_prefix(0)) + stage_list(
        downsample_prefix(1),
    ) + stage_list(upsample_prefix(0)) + stage_list(upsample_prefix(1))
}

// ---------------------------------------------------------------------
// Checks
// ---------------------------------------------------------------------

/// What is wrong with a required tensor, if anything.
pub open spec fn half_failure(
    tensors: Seq<TensorView>,
    name: Seq<char>,
    dimensions: Seq<u64>,
) -> Option<Seq<char>> {
    match tensor_under(tensors, name) {
        None => Some("missing "@ + name),
        Some(t) => if t.ggml_type == GgmlType::F16 && t.dimensions == dimensions {
            None
        } else {
            Some(
                name + " expected F16 "@ + list_text(longs(dimensions)) + ", got "@ + ggml_name(
                    t.ggml_type,
                ) + " "@ + list_text(longs(t.dimensions)),
            )
        },
    }
}

/// What is wrong with the first `n` required tensors.
pub open spec fn half_failures(
    tensors: Seq<TensorView>,
    required: Seq<(Seq<char>, Seq<u64>)>,
    n: int,
) -> Seq<Seq<char>>
    decreases n,
{
    if n <= 0 {
        Seq::empty()
    } else {
        match half_failure(tensors, required[n - 1].0, required[n - 1].1) {
            Some(text) => half_failures(tensors, required, n - 1).push(text),
            None => half_failures(tensors, required, n - 1),
        }
    }
}

/// The first part of a name.
pub open spec fn component_of(name: Seq<char>) -> Seq<char> {
    pieces(name, '.')[0]
}

fn component_text(name: &str) -> (r: String)
    ensures
        r@ == component_of(name@),
{
    let chars = to_chars(name);
    let parts = split_chars(chars.as_slice(), '.');
    assert(char_lists(parts@)[0] == parts@[0]@);
    from_chars(parts[0].as_slice())
}

/// How many of the first `n` tensors have a name that starts with this part.
pub open spec fn count_with(tensors: Seq<TensorView>, part: Seq<char>, n: int) -> nat
    decreases n,
{
    if n <= 0 {
        0
    } else if component_of(tensors[n - 1].name) == part {
        count_with(tensors, part, n - 1) + 1
    } else {
        count_with(tensors, part, n - 1)
    }
}

fn count_component(tensors: &NamedTensors, part: &str) -> (r: usize)
    ensures
        r == count_with(tensors@, part@, tensors@.len() as int),
{
    let all: usize = tensors.len();
    let mut found: usize = 0;
    let mut i: usize = 0;
    while i < all
        invariant
            i <= all,
            all == tensors@.len(),
            found <= i,
            found == count_with(tensors@, part@, i as int),
        decreases all - i,
    {
        let head = component_text(tensors.at(i).name.as_str());
        if str_eq(head.as_str(), part) {
            found = found + 1;
        }
        i = i + 1;
    }
    found
}

/// What is wrong with the count of a component's tensors, if anything.
pub open spec fn component_failure(
    tensors: Seq<TensorView>,
    part: Seq<char>,
    expected: nat,
) -> Seq<Seq<char>> {
    let found = count_with(tensors, part, tensors.len() as int);
    if found != expected {
        seq![part + " tensor count: expected "@ + dec(expected) + ", got "@ + dec(found)]
    } else {
        Seq::empty()
    }
}

/// All that is wrong with the tensors of a codec.
pub open spec fn codec_failures(tensors: Seq<TensorView>) -> Seq<Seq<char>> {
    let set = layers_in(tensors, "quantizer.quantizer.quantizers"@, tensors.len() as int);
    component_failure(tensors, "encoder"@, 128) + component_failure(tensors, "quantizer"@, 244)
        + component_failure(tensors, "decoder"@, 89) + half_failures(
        tensors,
        codec_list(),
        codec_list().len() as int,
    ) + (if set != counting(9) {
        seq!["residual quantizer layer set mismatch: "@ + set_text(sizes(set))]
    } else {
        Seq::empty()
    })
}

/// What is wrong with a codec file, if anything.
pub open spec fn codec_error(f: FileView) -> Option<ErrorView> {
    match value_of(f.metadata, "general.architecture"@, 0) {
        None => Some(message("missing general.architecture"@)),
        Some(arch) => if arch != "fish-speech-codec"@ {
            Some(message("expected fish-speech-codec codec GGUF, got "@ + arch))
        } else if codec_failures(f.tensors).len() > 0 {
            Some(
                message(
                    "codec tensor registry validation failed:\n"@ + joined(
                        codec_failures(f.tensors),
                        "\n"@,
                    ),
                ),
            )
        } else {
            None
        },
    }
}

fn check_component(tensors: &NamedTensors, part: &str, expected: usize, failures: &mut Vec<String>)
    ensures
        strings(final(failures)@) == strings(old(failures)@) + component_failure(
            tensors@,
            part@,
            expected as nat,
        ),
{
    let ghost before = failures@;
    let found: usize = count_component(tensors, part);
    if found != expected {
        let a = dec_usize(expected);
        let b = dec_usize(found);
        let text = String::from_str(part).concat(" tensor count: expected ").concat(
            a.as_str(),
        ).concat(", got ").concat(b.as_str());
        let ghost view = text@;
        failures.push(text);
        assert(strings(failures@) =~= strings(before) + seq![view]);
    } else {
        assert(strings(failures@) =~= strings(before) + Seq::empty());
    }
}

fn check_required(
    tensors: &NamedTensors,
    required: &Vec<(String, Vec<u64>)>,
    failures: &mut Vec<String>,
)
    ensures
        strings(final(failures)@) == strings(old(failures)@) + half_failures(
            tensors@,
            pair_views(required@),
            required@.len() as int,
        ),
{
    let ghost start = strings(failures@);
    let ghost views = pair_views(required@);
    let mut i: usize = 0;
    assert(start + half_failures(tensors@, views, 0) =~= start);
    while i < required.len()
        invariant
            i <= required@.len(),
            views == pair_views(required@),
            strings(failures@) == start + half_failures(tensors@, views, i as int),
        decreases required@.len() - i,
    {
        let name = required[i].0.as_str();
        let dims = required[i].1.as_slice();
        assert(views[i as int] == (name@, dims@));
        let ghost before = failures@;
        let ghost found = half_failures(tensors@, views, i as int);
        match tensors.get(name) {
            None => {
                let text = String::from_str("missing ").concat(name);
                let ghost view = text@;
                failures.push(text);
                assert(strings(failures@) =~= strings(before).push(view));
                assert((start + found).push(view) =~= start + found.push(view));
            },
            Some(tensor) => {
                if !(tensor.ggml_type == GgmlType::F16 && same_dimensions(
                    tensor.dimensions.as_slice(),
                    dims,
                )) {
                    let want = show_longs(dims);
                    let have = show_longs(tensor.dimensions.as_slice());
                    let text = String::from_str(name).concat(" expected F16 ").concat(
                        want.as_str(),
                    ).concat(", got ").concat(tensor.ggml_type.name()).concat(" ").concat(
                        have.as_str(),
                    );
                    let ghost view = text@;
                    failures.push(text);
                    assert(strings(failures@) =~= strings(before).push(view));
                    assert((start + found).push(view) =~= start + found.push(view));
                }
            },
        }
        i = i + 1;
    }
}

// ---------------------------------------------------------------------
// The registry
// ---------------------------------------------------------------------

/// The tensors of a codec that was found complete.
pub struct CodecTensorRegistry {
    pub architecture: String,
    pub tensor_count: usize,
    pub metadata: Vec<(String, String)>,
    tensors: NamedTensors,
    encoder: CodecEncoderWeights,
    semantic_quantizer: CodecQuantizerWeights,
    residual_quantizers: Vec<CodecQuantizerWeights>,
    pre_module_layers: Vec<CodecTransformerLayerWeights>,
    post_module_layers: Vec<CodecTransformerLayerWeights>,
    quantizer_downsample: CodecDownsampleWeights,
    quantizer_upsample: CodecUpsampleWeights,
}

fn residual_names() -> (r: Vec<CodecQuantizerWeights>)
    ensures
        r@.len() == 9,
        forall|i: int|
            0 <= i < 9 ==> (#[trigger] r@[i]).under(residual_prefix(i as usize), i as usize),
{
    let mut out: Vec<CodecQuantizerWeights> = Vec::new();
    let mut i: usize = 0;
    while i < 9
        invariant
            i <= 9,
            out@.len() == i,
            forall|k: int|
                0 <= k < i ==> (#[trigger] out@[k]).under(residual_prefix(k as usize), k as usize),
        decreases 9 - i,
    {
        out.push(CodecQuantizerWeights::residual(i));
        i = i + 1;
    }
    out
}

impl CodecTensorRegistry {
    /// The tensors, as listed in the file.
    pub closed spec fn listed(&self) -> Seq<TensorView> {
        self.tensors@
    }

    /// The architecture that the file names.
    pub closed spec fn arch(&self) -> Seq<char> {
        self.architecture@
    }

    /// How many names the tensors have.
    pub closed spec fn counted(&self) -> usize {
        self.tensor_count
    }

    /// The file's metadata.
    pub closed spec fn entries(&self) -> Seq<(Seq<char>, Seq<char>)> {
        text_pairs(self.metadata@)
    }

    /// Whether all names are those of a codec.
    pub closed spec fn named(&self) -> bool {
        &&& self.encoder.whole()
        &&& self.semantic_quantizer.under(semantic_prefix(), 0)
        &&& self.residual_quantizers@.len() == 9
        &&& forall|i: int|
            0 <= i < 9 ==> (#[trigger] self.residual_quantizers@[i]).under(
                residual_prefix(i as usize),
                i as usize,
            )
        &&& self.pre_module_layers@.len() == 8
        &&& forall|i: int|
            0 <= i < 8 ==> (#[trigger] self.pre_module_layers@[i]).of(
                "quantizer.pre_module"@,
                i as usize,
            )
        &&& self.post_module_layers@.len() == 8
        &&& forall|i: int|
            0 <= i < 8 ==> (#[trigger] self.post_module_layers@[i]).of(
                "quantizer.post_module"@,
                i as usize,
            )
        &&& self.quantizer_downsample.whole()
        &&& self.quantizer_upsample.whole()
    }

    fn required(&self) -> (r: Vec<(String, Vec<u64>)>)
        requires
            self.named(),
        ensures
            pair_views(r@) == codec_list(),
    {
        let mut out = quantizer_required(&self.semantic_quantizer, 4096, Ghost(semantic_prefix()));
        let mut residual: Vec<(String, Vec<u64>)> = Vec::new();
        assert(pair_views(residual@) =~= residual_list(0));
        let mut i: usize = 0;
        while i < 9
            invariant
                i <= 9,
                self.named(),
                pair_views(residual@) == residual_list(i as nat),
            decreases 9 - i,
        {
            assert(self.residual_quantizers@[i as int].under(residual_prefix(i), i));
            let part = quantizer_required(
                &self.residual_quantizers[i],
                1024,
                Ghost(residual_prefix(i)),
            );
            put_all(&mut residual, part);
            i = i + 1;
        }
        put_all(&mut out, residual);
        let encoder = encoder_required(&self.encoder);
        put_all(&mut out, encoder);
        let pre = module_required("quantizer.pre_module", &self.pre_module_layers);
        put_all(&mut out, pre);
        let post = module_required("quantizer.post_module", &self.post_module_layers);
        put_all(&mut out, post);
        let down_0 = downsample_required(&self.quantizer_downsample.stages[0]);
        put_all(&mut out, down_0);
        let down_1 = downsample_required(&self.quantizer_downsample.stages[1]);
        put_all(&mut out, down_1);
        let up_0 = upsample_required(&self.quantizer_upsample.stages[0]);
        put_all(&mut out, up_0);
        let up_1 = upsample_required(&self.quantizer_upsample.stages[1]);
        put_all(&mut out, up_1);
        out
    }

    fn validate(&self) -> (r: Result<(), InferError>)
        requires
            self.named(),
        ensures
            match r {
                Ok(_) => codec_failures(self.listed()).len() == 0,
                Err(e) => codec_failures(self.listed()).len() > 0 && e@ == message(
                    "codec tensor registry validation failed:\n"@ + joined(
                        codec_failures(self.listed()),
                        "\n"@,
                    ),
                ),
            },
    {
        let mut failures: Vec<String> = Vec::new();
        assert(strings(failures@) =~= Seq::empty());
        check_component(&self.tensors, "encoder", 128, &mut failures);
        check_component(&self.tensors, "quantizer", 244, &mut failures);
        check_component(&self.tensors, "decoder", 89, &mut failures);
        let required = self.required();
        assert(pair_views(required@).len() == required@.len());
        check_required(&self.tensors, &required, &mut failures);
        let set = indexed_layer_set(&self.tensors, "quantizer.quantizer.quantizers");
        let ghost before = failures@;
        if !is_counting(&set, 9) {
            let shown = show_size_set(set.as_slice());
            let text = String::from_str("residual quantizer layer set mismatch: ").concat(
                shown.as_str(),
            );
            let ghost view = text@;
            failures.push(text);
            assert(strings(failures@) =~= strings(before) + seq![view]);
        } else {
            assert(strings(failures@) =~= strings(before) + Seq::empty());
        }
        assert(strings(failures@) =~= codec_failures(self.listed()));
        assert(strings(failures@).len() == failures@.len());
        if failures.len() == 0 {
            Ok(())
        } else {
            let body = join_strings(&failures, "\n");
            Err(
                InferError::Message(
                    String::from_str("codec tensor registry validation failed:\n").concat(
                        body.as_str(),
                    ),
                ),
            )
        }
    }

    /// The registry of a codec file that is complete.
    pub fn from_gguf(gguf: &GgufFile) -> (r: Result<CodecTensorRegistry, InferError>)
        ensures
            match r {
                Ok(v) => codec_error(gguf@) is None && v.named() && v.arch()
                    == "fish-speech-codec"@ && v.counted() == index_of(
                    gguf@.tensors,
                    gguf@.tensors.len() as int,
                ).len() && v.listed() == gguf@.tensors && v.entries() == gguf@.metadata,
                Err(e) => codec_error(gguf@) == Some(e@),
            },
    {
        let architecture = match metadata_value(&gguf.metadata, "general.architecture") {
            None => {
                return Err(InferError::text("missing general.architecture"));
            },
            Some(t) => t,
        };
        if !str_eq(architecture.as_str(), "fish-speech-codec") {
            return Err(
                InferError::Message(
                    String::from_str("expected fish-speech-codec codec GGUF, got ").concat(
                        architecture.as_str(),
                    ),
                ),
            );
        }
        let tensors = NamedTensors::new(copy_tensors(&gguf.tensors));
        let tensor_count: usize = tensors.count();
        let registry = CodecTensorRegistry {
            architecture,
            tensor_count,
            metadata: copy_pairs(&gguf.metadata),
            tensors,
            encoder: CodecEncoderWeights::new(),
            semantic_quantizer: CodecQuantizerWeights::semantic(),
            residual_quantizers: residual_names(),
            pre_module_layers: module_layers("quantizer.pre_module", 8),
            post_module_layers: module_layers("quantizer.post_module", 8),
            quantizer_downsample: CodecDownsampleWeights::new(),
            quantizer_upsample: CodecUpsampleWeights::new(),
        };
        match registry.validate() {
            Err(e) => Err(e),
            Ok(_) => Ok(registry),
        }
    }

    /// The tensor under a name.
    pub fn tensor(&self, name: &str) -> (r: Option<&GgufTensorInfo>)
        ensures
            match r {
                Some(t) => tensor_under(self.listed(), name@) == Some(t@),
                None => tensor_under(self.listed(), name@) is None,
            },
    {
        self.tensors.get(name)
    }

    /// The names of the tensors, as listed in the file.
    pub fn tensor_names(&self) -> (r: Vec<String>)
        ensures
            r@.len() == self.listed().len(),
            forall|i: int| 0 <= i < r@.len() ==> (#[trigger] r@[i])@ == self.listed()[i].name,
    {
        let mut out: Vec<String> = Vec::new();
        let count: usize = self.tensors.len();
        let mut i: usize = 0;
        while i < count
            invariant
                i <= count,
                count == self.tensors@.len(),
                out@.len() == i,
                forall|k: int| 0 <= k < i ==> (#[trigger] out@[k])@ == self.tensors@[k].name,
            decreases count - i,
        {
            out.push(self.tensors.at(i).name.clone());
            i = i + 1;
        }
        out
    }

    /// The names of the weights of the encoder.
    pub fn encoder(&self) -> (r: &CodecEncoderWeights)
        requires
            self.named(),
        ensures
            r.whole(),
    {
        &self.encoder
    }

    /// The names of the weights of the first quantizer.
    pub fn semantic_quantizer(&self) -> (r: &CodecQuantizerWeights)
        requires
            self.named(),
        ensures
            r.under(semantic_prefix(), 0),
    {
        &self.semantic_quantizer
    }

    /// The names of the weights of the other quantizers.
    pub fn residual_quantizers(&self) -> (r: &Vec<CodecQuantizerWeights>)
        requires
            self.named(),
        ensures
            r@.len() == 9,
            forall|i: int|
                0 <= i < 9 ==> (#[trigger] r@[i]).under(residual_prefix(i as usize), i as usize),
    {
        &self.residual_quantizers
    }

    /// The names of the weights of the transformer before the quantizers.
    pub fn pre_module_layers(&self) -> (r: &Vec<CodecTransformerLayerWeights>)
        requires
            self.named(),
        ensures
            r@.len() == 8,
            forall|i: int|
                0 <= i < 8 ==> (#[trigger] r@[i]).of("quantizer.pre_module"@, i as usize),
    {
        &self.pre_module_layers
    }

    /// The names of the weights of the transformer after the quantizers.
    pub fn post_module_layers(&self) -> (r: &Vec<CodecTransformerLayerWeights>)
        requires
            self.named(),
        ensures
            r@.len() == 8,
            forall|i: int|
                0 <= i < 8 ==> (#[trigger] r@[i]).of("quantizer.post_module"@, i as usize),
    {
        &self.post_module_layers
    }

    /// The names of the weights of the stages that lower the frame rate.
    pub fn quantizer_downsample(&self) -> (r: &CodecDownsampleWeights)
        requires
            self.named(),
        ensures
            r.whole(),
    {
        &self.quantizer_downsample
    }

    /// The names of the weights of the stages that raise the frame rate.
    pub fn quantizer_upsample(&self) -> (r: &CodecUpsampleWeights)
        requires
            self.named(),
        ensures
            r.whole(),
    {
        &self.quantizer_upsample
    }

    /// How many tensors there are for each first part of a name, in the order of the parts.
    pub fn prefix_counts(&self) -> (r: Vec<(String, usize)>)
        ensures
            count_views(r@) == part_counts(self.listed(), self.listed().len() as int),
    {
        let mut out: Vec<(String, usize)> = Vec::new();
        let count: usize = self.tensors.len();
        let mut i: usize = 0;
        assert(count_views(out@) =~= part_counts(self.tensors@, 0));
        while i < count
            invariant
                i <= count,
                count == self.tensors@.len(),
                count_views(out@) == part_counts(self.tensors@, i as int),
                forall|k: int| 0 <= k < out@.len() ==> (#[trigger] out@[k]).1 <= i,
            decreases count - i,
        {
            let part = component_text(self.tensors.at(i).name.as_str());
            count_part(&mut out, part, i);
            i = i + 1;
        }
        out
    }

    /// One row for each tensor: what it is for, and where it lies.
    pub fn dump_rows(&self, tensor_data_start: u64) -> (r: Result<
        Vec<CodecTensorDumpRow>,
        InferError,
    >)
        requires
            forall|i: int|
                0 <= i < self.listed().len() ==> tensor_data_start + (
                #[trigger] self.listed()[i]).relative_offset <= u64::MAX,
        ensures
            match r {
                Ok(rows) => row_error(self.listed(), 0) is None && rows@.len()
                    == self.listed().len() && forall|i: int|
                    0 <= i < rows@.len() ==> is_row(
                        #[trigger] rows@[i],
                        i,
                        self.listed()[i],
                        tensor_data_start,
                    ),
                Err(e) => row_error(self.listed(), 0) == Some(e@),
            },
    {
        let mut out: Vec<CodecTensorDumpRow> = Vec::new();
        let count: usize = self.tensors.len();
        let mut i: usize = 0;
        while i < count
            invariant
                i <= count,
                count == self.tensors@.len(),
                row_error(self.tensors@, 0) == row_error(self.tensors@, i as int),
                forall|k: int|
                    0 <= k < self.tensors@.len() ==> tensor_data_start + (
                    #[trigger] self.tensors@[k]).relative_offset <= u64::MAX,
                out@.len() == i,
                forall|k: int|
                    0 <= k < i ==> is_row(
                        #[trigger] out@[k],
                        k,
                        self.tensors@[k],
                        tensor_data_start,
                    ),
            decreases count - i,
        {
            let tensor = self.tensors.at(i);
            assert(tensor@ == self.tensors@[i as int]);
            let role = classify_codec_tensor(tensor.name.as_str());
            let elements: u64 = match tensor.element_count() {
                Err(e) => {
                    return Err(InferError::from_core(&e));
                },
                Ok(n) => n,
            };
            let bytes: usize = match tensor.byte_len() {
                Err(e) => {
                    return Err(InferError::from_core(&e));
                },
                Ok(n) => n,
            };
            let copy = tensor.duplicate();
            out.push(
                CodecTensorDumpRow {
                    index: i,
                    component: role.component,
                    role: role.role,
                    module: role.module,
                    layer: role.layer,
                    quantizer_index: role.quantizer_index,
                    name: copy.name,
                    ggml_type: copy.ggml_type,
                    dimensions: copy.dimensions,
                    elements,
                    bytes,
                    relative_offset: copy.relative_offset,
                    absolute_offset: tensor.absolute_offset(tensor_data_start),
                },
            );
            i = i + 1;
        }
        Ok(out)
    }
}

/// Parts and their counts as mathematical values.
pub open spec fn count_views(v: Seq<(String, usize)>) -> Seq<(Seq<char>, nat)> {
    v.map_values(|p: (String, usize)| (p.0@, p.1 as nat))
}

/// A list of counts in the order of their parts, with one more of a part.
pub open spec fn with_part(list: Seq<(Seq<char>, nat)>, part: Seq<char>) -> Seq<(Seq<char>, nat)>
    decreases list.len(),
{
    if list.len() == 0 {
        seq![(part, 1nat)]
    } else if list.last().0 == part {
        list.drop_last().push((part, list.last().1 + 1))
    } else if text_le(list.last().0, part) {
        list.push((part, 1nat))
    } else {
        with_part(list.drop_last(), part).push(list.last())
    }
}

/// How many of the first `n` tensors there are for each first part of a name.
pub open spec fn part_counts(tensors: Seq<TensorView>, n: int) -> Seq<(Seq<char>, nat)>
    decreases n,
{
    if n <= 0 {
        Seq::empty()
    } else {
        with_part(part_counts(tensors, n - 1), component_of(tensors[n - 1].name))
    }
}

fn count_part(list: &mut Vec<(String, usize)>, part: String, most: usize)
    requires
        most < usize::MAX,
        forall|k: int| 0 <= k < old(list)@.len() ==> (#[trigger] old(list)@[k]).1 <= most,
    ensures
        count_views(final(list)@) == with_part(count_views(old(list)@), part@),
        forall|k: int| 0 <= k < final(list)@.len() ==> (#[trigger] final(list)@[k]).1 <= most + 1,
{
    let ghost start = count_views(list@);
    let ghost first = list@;
    let chars = to_chars(part.as_str());
    let mut i: usize = list.len();
    let mut found: bool = false;
    assert(start.take(i as int) =~= start);
    assert(start.skip(i as int) =~= Seq::empty());
    assert(with_part(start, part@) =~= with_part(start.take(i as int), part@) + start.skip(
        i as int,
    ));
    while i > 0 && !found
        invariant
            i <= list@.len(),
            list@ == first,
            start == count_views(list@),
            chars@ == part@,
            with_part(start, part@) == with_part(start.take(i as int), part@) + start.skip(
                i as int,
            ),
            found ==> i > 0 && (start[i - 1].0 == part@ || text_le(start[i - 1].0, part@)),
        ensures
            i == 0 || found,
        decreases i, (if found { 0int } else { 1int }),
    {
        let other = to_chars(list[i - 1].0.as_str());
        assert(start[i - 1].0 == other@);
        if chars_le(other.as_slice(), chars.as_slice()) {
            found = true;
        } else {
            proof {
                let cur = start.take(i as int);
                assert(cur.last() == start[i - 1]);
                assert(cur.drop_last() =~= start.take(i - 1));
                if cur.last().0 == part@ {
                    crate::text::text_order_is_total(part@, part@, part@);
                }
                assert(with_part(cur.drop_last(), part@).push(cur.last()) + start.skip(i as int)
                    =~= with_part(start.take(i - 1), part@) + start.skip(i - 1));
            }
            i = i - 1;
        }
    }
    proof {
        let cur = start.take(i as int);
        if i > 0 {
            assert(cur.last() == start[i - 1]);
        }
    }
    if i > 0 && str_eq(list[i - 1].0.as_str(), part.as_str()) {
        let ghost cur = start.take(i as int);
        let n: usize = list[i - 1].1;
        list.set(i - 1, (part, n + 1));
        assert(count_views(list@) =~= cur.drop_last().push((part@, cur.last().1 + 1)) + start.skip(
            i as int,
        ));
        assert forall|k: int| 0 <= k < list@.len() implies (#[trigger] list@[k]).1 <= most + 1 by {
            assert(first[k].1 <= most);
        }
    } else {
        let ghost cur = start.take(i as int);
        let ghost name = part@;
        list.insert(i, (part, 1));
        assert(count_views(list@) =~= cur.push((name, 1nat)) + start.skip(i as int));
        assert forall|k: int| 0 <= k < list@.len() implies (#[trigger] list@[k]).1 <= most + 1 by {
            if k < i {
                assert(list@[k] == first[k]);
            } else if k > i {
                assert(list@[k] == first[k - 1]);
            }
        }
    }
}

// ---------------------------------------------------------------------
// What tensors are for
// ---------------------------------------------------------------------

/// One row of a listing of the codec's tensors.
#[derive(Debug)]
pub struct CodecTensorDumpRow {
    pub index: usize,
    pub component: String,
    pub role: String,
    pub module: Option<String>,
    pub layer: Option<usize>,
    pub quantizer_index: Option<usize>,
    pub name: String,
    pub ggml_type: GgmlType,
    pub dimensions: Vec<u64>,
    pub elements: u64,
    pub bytes: usize,
    pub relative_offset: u64,
    pub absolute_offset: u64,
}

/// What a tensor of the codec is for.
#[derive(Debug)]
pub struct CodecTensorRoleInfo {
    pub component: String,
    pub role: String,
    pub module: Option<String>,
    pub layer: Option<usize>,
    pub quantizer_index: Option<usize>,
}

/// What a tensor is for, as a mathematical value.
pub ghost struct RoleView {
    pub component: Seq<char>,
    pub role: Seq<char>,
    pub module: Option<Seq<char>>,
    pub layer: Option<usize>,
    pub quantizer_index: Option<usize>,
}

/// A text that may be missing, as characters.
pub open spec fn maybe_text(t: Option<String>) -> Option<Seq<char>> {
    match t {
        Some(s) => Some(s@),
        None => None,
    }
}

impl View for CodecTensorRoleInfo {
    type V = RoleView;

    open spec fn view(&self) -> RoleView {
        RoleView {
            component: self.component@,
            role: self.role@,
            module: maybe_text(self.module),
            layer: self.layer,
            quantizer_index: self.quantizer_index,
        }
    }
}

/// The role of a quantizer's tensor, by the end of its name.
pub open spec fn quantizer_role(kind: Seq<char>, tail: Seq<char>) -> Seq<char> {
    if tail == "in_proj.weight"@ {
        kind + "_in_proj_weight"@
    } else if tail == "in_proj.bias"@ {
        kind + "_in_proj_bias"@
    } else if tail == "out_proj.weight"@ {
        kind + "_out_proj_weight"@
    } else if tail == "out_proj.bias"@ {
        kind + "_out_proj_bias"@
    } else if tail == "codebook.weight"@ {
        kind + "_codebook"@
    } else {
        kind + "_quantizer"@
    }
}

fn quantizer_role_text(kind: &str, tail: &str) -> (r: String)
    ensures
        r@ == quantizer_role(kind@, tail@),
{
    let ending = if str_eq(tail, "in_proj.weight") {
        "_in_proj_weight"
    } else if str_eq(tail, "in_proj.bias") {
        "_in_proj_bias"
    } else if str_eq(tail, "out_proj.weight") {
        "_out_proj_weight"
    } else if str_eq(tail, "out_proj.bias") {
        "_out_proj_bias"
    } else if str_eq(tail, "codebook.weight") {
        "_codebook"
    } else {
        "_quantizer"
    };
    String::from_str(kind).concat(ending)
}

/// The role of a transformer layer's tensor, by the end of its name.
pub open spec fn transformer_role(tail: Seq<char>) -> Seq<char> {
    if tail == "attention.wqkv.weight"@ {
        "transformer_attention_wqkv"@
    } else if tail == "attention.wo.weight"@ {
        "transformer_attention_output"@
    } else if tail == "attention_norm.weight"@ {
        "transformer_attention_norm"@
    } else if tail == "ffn_norm.weight"@ {
        "transformer_ffn_norm"@
    } else if tail == "feed_forward.w1.weight"@ {
        "transformer_feed_forward_w1"@
    } else if tail == "feed_forward.w2.weight"@ {
        "transformer_feed_forward_w2"@
    } else if tail == "feed_forward.w3.weight"@ {
        "transformer_feed_forward_w3"@
    } else if tail == "attention_layer_scale.gamma"@ {
        "transformer_attention_layer_scale"@
    } else if tail == "ffn_layer_scale.gamma"@ {
        "transformer_ffn_layer_scale"@
    } else {
        "transformer_layer"@
    }
}

fn transformer_layer_role(tail: &str) -> (r: &'static str)
    ensures
        r@ == transformer_role(tail@),
{
    if str_eq(tail, "attention.wqkv.weight") {
        "transformer_attention_wqkv"
    } else if str_eq(tail, "attention.wo.weight") {
        "transformer_attention_output"
    } else if str_eq(tail, "attention_norm.weight") {
        "transformer_attention_norm"
    } else if str_eq(tail, "ffn_norm.weight") {
        "transformer_ffn_norm"
    } else if str_eq(tail, "feed_forward.w1.weight") {
        "transformer_feed_forward_w1"
    } else if str_eq(tail, "feed_forward.w2.weight") {
        "transformer_feed_forward_w2"
    } else if str_eq(tail, "feed_forward.w3.weight") {
        "transformer_feed_forward_w3"
    } else if str_eq(tail, "attention_layer_scale.gamma") {
        "transformer_attention_layer_scale"
    } else if str_eq(tail, "ffn_layer_scale.gamma") {
        "transformer_ffn_layer_scale"
    } else {
        "transformer_layer"
    }
}

/// What follows a prefix.
pub open spec fn after_prefix(name: Seq<char>, prefix: Seq<char>) -> Option<Seq<char>> {
    if begins_with(name, prefix) {
        Some(name.skip(prefix.len() as int))
    } else {
        None
    }
}

fn strip(name: &str, prefix: &str) -> (r: Option<String>)
    ensures
        maybe_text(r) == after_prefix(name@, prefix@),
{
    if !starts_with(name, prefix) {
        return None;
    }
    let chars = to_chars(name);
    let start: usize = to_chars(prefix).len();
    let end: usize = chars.len();
    let rest = from_chars(slice_subrange(chars.as_slice(), start, end));
    assert(rest@ =~= name@.skip(prefix@.len() as int));
    Some(rest)
}

/// The number that follows a prefix up to the next dot, and what follows the dot.
pub open spec fn numbered(name: Seq<char>, prefix: Seq<char>) -> Option<(usize, Seq<char>)> {
    match after_prefix(name, prefix) {
        None => None,
        Some(rest) => match next_at(rest, seq!['.'], 0) {
            None => None,
            Some(p) => match unsigned_value(rest.take(p), usize::MAX as nat) {
                Ok(v) => Some((v as usize, rest.skip(p + 1))),
                Err(_) => None,
            },
        },
    }
}

fn numbered_text(name: &str, prefix: &str) -> (r: Option<(usize, String)>)
    ensures
        match r {
            Some(p) => numbered(name@, prefix@) == Some((p.0, p.1@)),
            None => numbered(name@, prefix@) is None,
        },
{
    let rest_text = match strip(name, prefix) {
        None => {
            return None;
        },
        Some(t) => t,
    };
    let rest = to_chars(rest_text.as_str());
    let mut dot: Vec<char> = Vec::new();
    dot.push('.');
    assert(dot@ =~= seq!['.']);
    match find_from(&rest, &dot, 0) {
        None => None,
        Some(p) => {
            proof {
                lemma_next_at(rest@, dot@, 0);
            }
            let digits = from_chars(slice_subrange(rest.as_slice(), 0, p));
            assert(digits@ =~= rest@.take(p as int));
            let end: usize = rest.len();
            let tail = from_chars(slice_subrange(rest.as_slice(), p + 1, end));
            assert(tail@ =~= rest@.skip(p as int + 1));
            match parse_usize(digits.as_str()) {
                Ok(v) => Some((v, tail)),
                Err(_) => None,
            }
        },
    }
}

/// What a tensor of a module is for, if it is one.
pub open spec fn module_role(name: Seq<char>, module: Seq<char>) -> Option<
    (Seq<char>, Option<usize>),
> {
    if name == module + ".freqs_cis"@ {
        Some(("transformer_freqs_cis"@, None))
    } else if name == module + ".causal_mask"@ {
        Some(("transformer_causal_mask"@, None))
    } else if name == module + ".norm.weight"@ {
        Some(("transformer_output_norm"@, None))
    } else {
        match numbered(name, module + ".layers."@) {
            Some((layer, tail)) => Some((transformer_role(tail), Some(layer))),
            None => None,
        }
    }
}

fn module_role_text(name: &str, module: &str) -> (r: Option<(&'static str, Option<usize>)>)
    ensures
        match r {
            Some(p) => module_role(name@, module@) == Some((p.0@, p.1)),
            None => module_role(name@, module@) is None,
        },
{
    if str_eq(name, String::from_str(module).concat(".freqs_cis").as_str()) {
        return Some(("transformer_freqs_cis", None));
    }
    if str_eq(name, String::from_str(module).concat(".causal_mask").as_str()) {
        return Some(("transformer_causal_mask", None));
    }
    if str_eq(name, String::from_str(module).concat(".norm.weight").as_str()) {
        return Some(("transformer_output_norm", None));
    }
    match numbered_text(name, String::from_str(module).concat(".layers.").as_str()) {
        Some((layer, tail)) => Some((transformer_layer_role(tail.as_str()), Some(layer))),
        None => None,
    }
}

/// The role of a tensor that stands for itself.
pub open spec fn plain_role(name: Seq<char>, role: Seq<char>) -> RoleView {
    RoleView {
        component: component_of(name),
        role,
        module: None,
        layer: None,
        quantizer_index: None,
    }
}

/// What a tensor is for, by its name.
pub open spec fn role_of(name: Seq<char>) -> RoleView {
    match after_prefix(name, "quantizer.semantic_quantizer.quantizers.0."@) {
        Some(tail) => RoleView {
            quantizer_index: Some(0),
            ..plain_role(name, quantizer_role("semantic"@, tail))
        },
        None => match numbered(name, "quantizer.quantizer.quantizers."@) {
            Some((index, tail)) => RoleView {
                quantizer_index: Some(index),
                ..plain_role(name, quantizer_role("residual"@, tail))
            },
            None => match module_role(name, "quantizer.pre_module"@) {
                Some((role, layer)) => RoleView {
                    module: Some("quantizer.pre_module"@),
                    layer,
                    ..plain_role(name, role)
                },
                None => match module_role(name, "quantizer.post_module"@) {
                    Some((role, layer)) => RoleView {
                        module: Some("quantizer.post_module"@),
                        layer,
                        ..plain_role(name, role)
                    },
                    None => plain_role(name, other_role(name)),
                },
            },
        },
    }
}

/// The role of a tensor outside quantizers and transformers.
pub open spec fn other_role(name: Seq<char>) -> Seq<char> {
    if begins_with(name, "quantizer.downsample."@) {
        "quantizer_downsample"@
    } else if begins_with(name, "quantizer.upsample."@) {
        "quantizer_upsample"@
    } else if begins_with(name, "encoder."@) {
        "encoder"@
    } else if begins_with(name, "decoder."@) {
        "decoder"@
    } else {
        "unknown"@
    }
}

fn other_role_text(name: &str) -> (r: &'static str)
    ensures
        r@ == other_role(name@),
{
    if starts_with(name, "quantizer.downsample.") {
        "quantizer_downsample"
    } else if starts_with(name, "quantizer.upsample.") {
        "quantizer_upsample"
    } else if starts_with(name, "encoder.") {
        "encoder"
    } else if starts_with(name, "decoder.") {
        "decoder"
    } else {
        "unknown"
    }
}

/// What a tensor is for, by its name.
pub fn classify_codec_tensor(name: &str) -> (r: CodecTensorRoleInfo)
    ensures
        r@ == role_of(name@),
{
    let component = component_text(name);
    if let Some(tail) = strip(name, "quantizer.semantic_quantizer.quantizers.0.") {
        return CodecTensorRoleInfo {
            component,
            role: quantizer_role_text("semantic", tail.as_str()),
            module: None,
            layer: None,
            quantizer_index: Some(0),
        };
    }
    if let Some((index, tail)) = numbered_text(name, "quantizer.quantizer.quantizers.") {
        return CodecTensorRoleInfo {
            component,
            role: quantizer_role_text("residual", tail.as_str()),
            module: None,
            layer: None,
            quantizer_index: Some(index),
        };
    }
    if let Some((role, layer)) = module_role_text(name, "quantizer.pre_module") {
        return CodecTensorRoleInfo {
            component,
            role: String::from_str(role),
            module: Some(String::from_str("quantizer.pre_module")),
            layer,
            quantizer_index: None,
        };
    }
    if let Some((role, layer)) = module_role_text(name, "quantizer.post_module") {
        return CodecTensorRoleInfo {
            component,
            role: String::from_str(role),
            module: Some(String::from_str("quantizer.post_module")),
            layer,
            quantizer_index: None,
        };
    }
    CodecTensorRoleInfo {
        component,
        role: String::from_str(other_role_text(name)),
        module: None,
        layer: None,
        quantizer_index: None,
    }
}

/// The error of the first tensor from `i` on whose size cannot be told.
pub open spec fn row_error(tensors: Seq<TensorView>, i: int) -> Option<ErrorView>
    decreases tensors.len() - i,
{
    if i < 0 || i >= tensors.len() {
        None
    } else {
        match element_count_of(tensors[i]) {
            Err(e) => Some(message(core_error_text(e))),
            Ok(_) => match tensor_byte_len(tensors[i]) {
                Err(e) => Some(message(core_error_text(e))),
                Ok(_) => row_error(tensors, i + 1),
            },
        }
    }
}

/// Whether a row is that of a tensor.
pub open spec fn is_row(row: CodecTensorDumpRow, i: int, t: TensorView, start: u64) -> bool {
    let role = role_of(t.name);
    &&& row.index == i
    &&& row.component@ == role.component
    &&& row.role@ == role.role
    &&& maybe_text(row.module) == role.module
    &&& row.layer == role.layer
    &&& row.quantizer_index == role.quantizer_index
    &&& row.name@ == t.name
    &&& row.ggml_type == t.ggml_type
    &&& row.dimensions@ == t.dimensions
    &&& element_count_of(t) == Ok::<u64, ErrorView>(row.elements)
    &&& tensor_byte_len(t) == Ok::<usize, ErrorView>(row.bytes)
    &&& row.relative_offset == t.relative_offset
    &&& row.absolute_offset == start + t.relative_offset
}

/// Dimensions with crosses between them.
pub fn format_codec_dimensions(dimensions: &[u64]) -> (r: String)
    ensures
        r@ == joined(crate::text::decimals(longs(dimensions@)), "x"@),
{
    show_longs_by_x(dimensions)
}

// ---------------------------------------------------------------------
// What holds of roles and required tensors
// ---------------------------------------------------------------------

proof fn lemma_no_failure(
    tensors: Seq<TensorView>,
    required: Seq<(Seq<char>, Seq<u64>)>,
    n: int,
    k: int,
)
    requires
        half_failures(tensors, required, n).len() == 0,
        0 <= k < n,
    ensures
        half_failure(tensors, required[k].0, required[k].1) is None,
    decreases n,
{
    if k < n - 1 {
        lemma_no_failure(tensors, required, n - 1, k);
    }
}

/// In an accepted codec file every required tensor is there, with its type and dimensions.
pub proof fn accepted_codecs_are_complete(f: FileView, k: int)
    requires
        codec_error(f) is None,
        0 <= k < codec_list().len(),
    ensures
        tensor_under(f.tensors, codec_list()[k].0) matches Some(t) && t.ggml_type == GgmlType::F16
            && t.dimensions == codec_list()[k].1,
{
    lemma_no_failure(f.tensors, codec_list(), codec_list().len() as int, k);
}

} // verus!
