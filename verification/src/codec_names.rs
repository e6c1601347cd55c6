//! Names of the codec's tensors.
use crate::text::{dec, dec_usize};
use vstd::prelude::*;
use vstd::string::*;

verus! {

pub const CODEC_ARCHITECTURE: &'static str = "fish-speech-codec";

pub const CODEC_HIDDEN_SIZE: u64 = 1024;

pub const CODEC_PROJECTION_DIM: u64 = 8;

pub const CODEC_SEMANTIC_CODEBOOK_SIZE: u64 = 4096;

pub const CODEC_RESIDUAL_CODEBOOK_SIZE: u64 = 1024;

pub const CODEC_RESIDUAL_QUANTIZERS: usize = 9;

pub const CODEC_TRANSFORMER_LAYERS: usize = 8;

pub const CODEC_ATTENTION_WQKV_OUT: u64 = 3072;

pub const CODEC_FEED_FORWARD_SIZE: u64 = 3072;

pub const CODEC_CONTEXT_LENGTH: u64 = 4096;

pub const CODEC_FREQ_HEADS: u64 = 32;

pub const CODEC_RVQ_HEAD_DIM: usize = 64;

pub const CODEC_RVQ_LOCAL_HEADS: usize = 16;

/// The rotary base of the codec's transformers, ten thousand, as single-precision bits.
pub const CODEC_RVQ_ROPE_BASE: u32 = 0x461c_4000;

/// The norm epsilon of the codec's transformers, a hundred-thousandth, as single-precision bits.
pub const CODEC_RVQ_NORM_EPS: u32 = 0x3727_c5ac;

pub const CODEC_RVQ_WINDOW_SIZE: usize = 128;

pub const CODEC_UPSAMPLE_STAGES: usize = 2;

pub const CODEC_UPSAMPLE_FACTOR: usize = 2;

pub const CODEC_CONVNEXT_KERNEL_SIZE: usize = 7;

pub const CODEC_CONVNEXT_EXPANDED_SIZE: usize = 4096;

/// The norm epsilon of the codec's other blocks, a millionth, as single-precision bits.
pub const CODEC_CONVNEXT_NORM_EPS: u32 = 0x3586_37bd;

pub const CODEC_ENCODER_BLOCK_COUNT: usize = 4;

pub const CODEC_ENCODER_ENTRY_CHANNELS: usize = 64;

pub const CODEC_ENCODER_TRANSFORMER_LAYERS: usize = 4;

pub const CODEC_ENCODER_TRANSFORMER_CONTEXT: u64 = 16384;

pub const CODEC_ENCODER_TRANSFORMER_WINDOW_SIZE: usize = 512;

pub const CODEC_FRAME_LENGTH: usize = 2048;

pub const CODEC_ENCODER_TAIL_BLOCK: usize = 5;

pub const CODEC_ENCODER_OUTPUT_BLOCK: usize = 6;

pub const CODEC_LATENT_DIM: usize = 1024;

pub const CODEC_DECODER_ENTRY_CHANNELS: usize = 1536;

pub const CODEC_DECODER_BLOCK_COUNT: usize = 4;

pub const CODEC_DECODER_TAIL_BLOCK: usize = 5;

pub const CODEC_DECODER_OUTPUT_BLOCK: usize = 6;

pub const CODEC_SAMPLE_RATE: u32 = 44100;

fn with_tail(prefix: &str, tail: &str) -> (r: String)
    ensures
        r@ == prefix@ + tail@,
{
    String::from_str(prefix).concat(tail)
}

fn with_number(prefix: &str, n: usize) -> (r: String)
    ensures
        r@ == prefix@ + dec(n as nat),
{
    let digits = dec_usize(n);
    String::from_str(prefix).concat(digits.as_str())
}

/// The names of the tensors of a quantizer.
#[derive(Debug)]
pub struct CodecQuantizerWeights {
    pub index: usize,
    pub prefix: String,
    pub in_proj_weight: String,
    pub in_proj_bias: String,
    pub out_proj_weight: String,
    pub out_proj_bias: String,
    pub codebook_weight: String,
}

impl CodecQuantizerWeights {
    /// Whether the names are those under a prefix.
    pub open spec fn under(&self, prefix: Seq<char>, index: usize) -> bool {
        &&& self.index == index
        &&& self.prefix@ == prefix
        &&& self.in_proj_weight@ == prefix + ".in_proj.weight"@
        &&& self.in_proj_bias@ == prefix + ".in_proj.bias"@
        &&& self.out_proj_weight@ == prefix + ".out_proj.weight"@
        &&& self.out_proj_bias@ == prefix + ".out_proj.bias"@
        &&& self.codebook_weight@ == prefix + ".codebook.weight"@
    }

    /// The names under a prefix.
    pub fn new(prefix: &str, index: usize) -> (r: CodecQuantizerWeights)
        ensures
            r.under(prefix@, index),
    {
        CodecQuantizerWeights {
            index,
            prefix: String::from_str(prefix),
            in_proj_weight: with_tail(prefix, ".in_proj.weight"),
            in_proj_bias: with_tail(prefix, ".in_proj.bias"),
            out_proj_weight: with_tail(prefix, ".out_proj.weight"),
            out_proj_bias: with_tail(prefix, ".out_proj.bias"),
            codebook_weight: with_tail(prefix, ".codebook.weight"),
        }
    }

    /// The names of the quantizer for speech tokens.
    pub fn semantic() -> (r: CodecQuantizerWeights)
        ensures
            r.under(semantic_prefix(), 0),
    {
        CodecQuantizerWeights::new("quantizer.semantic_quantizer.quantizers.0", 0)
    }

    /// The names of one of the quantizers for what the ones before leave over.
    pub fn residual(index: usize) -> (r: CodecQuantizerWeights)
        ensures
            r.under(residual_prefix(index), index),
    {
        let prefix = with_number("quantizer.quantizer.quantizers.", index);
        CodecQuantizerWeights::new(prefix.as_str(), index)
    }
}

/// The prefix of the quantizer for speech tokens.
pub open spec fn semantic_prefix() -> Seq<char> {
    "quantizer.semantic_quantizer.quantizers.0"@
}

/// The prefix of one of the other quantizers.
pub open spec fn residual_prefix(index: usize) -> Seq<char> {
    "quantizer.quantizer.quantizers."@ + dec(index as nat)
}

/// The names of the tensors of a transformer layer.
#[derive(Debug)]
pub struct CodecTransformerLayerWeights {
    pub module: String,
    pub layer: usize,
    pub attention_wqkv: String,
    pub attention_output: String,
    pub attention_norm: String,
    pub ffn_norm: String,
    pub feed_forward_w1: String,
    pub feed_forward_w2: String,
    pub feed_forward_w3: String,
    pub attention_layer_scale: String,
    pub ffn_layer_scale: String,
}

/// The prefix of a layer of a module.
pub open spec fn layer_prefix(module: Seq<char>, layer: usize) -> Seq<char> {
    module + ".layers."@ + dec(layer as nat)
}

impl CodecTransformerLayerWeights {
    /// Whether the names are those of a layer of a module.
    pub open spec fn of(&self, module: Seq<char>, layer: usize) -> bool {
        &&& self.module@ == module
        &&& self.layer == layer
        &&& self.attention_wqkv@ == layer_prefix(module, layer) + ".attention.wqkv.weight"@
        &&& self.attention_output@ == layer_prefix(module, layer) + ".attention.wo.weight"@
        &&& self.attention_norm@ == layer_prefix(module, layer) + ".attention_norm.weight"@
        &&& self.ffn_norm@ == layer_prefix(module, layer) + ".ffn_norm.weight"@
        &&& self.feed_forward_w1@ == layer_prefix(module, layer) + ".feed_forward.w1.weight"@
        &&& self.feed_forward_w2@ == layer_prefix(module, layer) + ".feed_forward.w2.weight"@
        &&& self.feed_forward_w3@ == layer_prefix(module, layer) + ".feed_forward.w3.weight"@
        &&& self.attention_layer_scale@ == layer_prefix(module, layer) + ".attention_layer_scale.gamma"@
        &&& self.ffn_layer_scale@ == layer_prefix(module, layer) + ".ffn_layer_scale.gamma"@
    }

    /// The names of a layer of a module.
    pub fn new(module: &str, layer: usize) -> (r: CodecTransformerLayerWeights)
        ensures
            r.of(module@, layer),
    {
        let digits = dec_usize(layer);
        let whole = String::from_str(module).concat(".layers.").concat(digits.as_str());
        let prefix = whole.as_str();
        CodecTransformerLayerWeights {
            module: String::from_str(module),
            layer,
            attention_wqkv: with_tail(prefix, ".attention.wqkv.weight"),
            attention_output: with_tail(prefix, ".attention.wo.weight"),
            attention_norm: with_tail(prefix, ".attention_norm.weight"),
            ffn_norm: with_tail(prefix, ".ffn_norm.weight"),
            feed_forward_w1: with_tail(prefix, ".feed_forward.w1.weight"),
            feed_forward_w2: with_tail(prefix, ".feed_forward.w2.weight"),
            feed_forward_w3: with_tail(prefix, ".feed_forward.w3.weight"),
            attention_layer_scale: with_tail(prefix, ".attention_layer_scale.gamma"),
            ffn_layer_scale: with_tail(prefix, ".ffn_layer_scale.gamma"),
        }
    }
}

/// The names of the first layers of a module.
pub fn module_layers(module: &str, count: usize) -> (r: Vec<CodecTransformerLayerWeights>)
    ensures
        r@.len() == count,
        forall|i: int| 0 <= i < count ==> (#[trigger] r@[i]).of(module@, i as usize),
{
    let mut out: Vec<CodecTransformerLayerWeights> = Vec::new();
    let mut i: usize = 0;
    while i < count
        invariant
            i <= count,
            out@.len() == i,
            forall|k: int| 0 <= k < i ==> (#[trigger] out@[k]).of(module@, k as usize),
        decreases count - i,
    {
        out.push(CodecTransformerLayerWeights::new(module, i));
        i = i + 1;
    }
    out
}

/// The names of the tensors of a downsampling stage.
#[derive(Debug)]
pub struct CodecDownsampleStageWeights {
    pub index: usize,
    pub conv_weight: String,
    pub conv_bias: String,
    pub convnext_gamma: String,
    pub dwconv_weight: String,
    pub dwconv_bias: String,
    pub norm_weight: String,
    pub norm_bias: String,
    pub pwconv1_weight: String,
    pub pwconv1_bias: String,
    pub pwconv2_weight: String,
    pub pwconv2_bias: String,
}

/// The prefix of a downsampling stage.
pub open spec fn downsample_prefix(index: usize) -> Seq<char> {
    "quantizer.downsample."@ + dec(index as nat)
}

impl CodecDownsampleStageWeights {
    /// Whether the names are those of a stage.
    pub open spec fn of(&self, index: usize) -> bool {
        &&& self.index == index
        &&& self.conv_weight@ == downsample_prefix(index) + ".0.conv.weight"@
        &&& self.conv_bias@ == downsample_prefix(index) + ".0.conv.bias"@
        &&& self.convnext_gamma@ == downsample_prefix(index) + ".1.gamma"@
        &&& self.dwconv_weight@ == downsample_prefix(index) + ".1.dwconv.conv.weight"@
        &&& self.dwconv_bias@ == downsample_prefix(index) + ".1.dwconv.conv.bias"@
        &&& self.norm_weight@ == downsample_prefix(index) + ".1.norm.weight"@
        &&& self.norm_bias@ == downsample_prefix(index) + ".1.norm.bias"@
        &&& self.pwconv1_weight@ == downsample_prefix(index) + ".1.pwconv1.weight"@
        &&& self.pwconv1_bias@ == downsample_prefix(index) + ".1.pwconv1.bias"@
        &&& self.pwconv2_weight@ == downsample_prefix(index) + ".1.pwconv2.weight"@
        &&& self.pwconv2_bias@ == downsample_prefix(index) + ".1.pwconv2.bias"@
    }

    /// The names of a stage.
    pub fn new(index: usize) -> (r: CodecDownsampleStageWeights)
        ensures
            r.of(index),
    {
        let whole = with_number("quantizer.downsample.", index);
        let prefix = whole.as_str();
        CodecDownsampleStageWeights {
            index,
            conv_weight: with_tail(prefix, ".0.conv.weight"),
            conv_bias: with_tail(prefix, ".0.conv.bias"),
            convnext_gamma: with_tail(prefix, ".1.gamma"),
            dwconv_weight: with_tail(prefix, ".1.dwconv.conv.weight"),
            dwconv_bias: with_tail(prefix, ".1.dwconv.conv.bias"),
            norm_weight: with_tail(prefix, ".1.norm.weight"),
            norm_bias: with_tail(prefix, ".1.norm.bias"),
            pwconv1_weight: with_tail(prefix, ".1.pwconv1.weight"),
            pwconv1_bias: with_tail(prefix, ".1.pwconv1.bias"),
            pwconv2_weight: with_tail(prefix, ".1.pwconv2.weight"),
            pwconv2_bias: with_tail(prefix, ".1.pwconv2.bias"),
        }
    }
}

/// The names of the tensors of all such stages.
#[derive(Debug)]
pub struct CodecDownsampleWeights {
    pub stages: Vec<CodecDownsampleStageWeights>,
}

impl CodecDownsampleWeights {
    /// Whether the names are those of the two stages.
    pub open spec fn whole(&self) -> bool {
        &&& self.stages@.len() == 2
        &&& self.stages@[0].of(0)
        &&& self.stages@[1].of(1)
    }

    /// The names of the two stages.
    pub fn new() -> (r: CodecDownsampleWeights)
        ensures
            r.whole(),
    {
        let mut stages: Vec<CodecDownsampleStageWeights> = Vec::new();
        stages.push(CodecDownsampleStageWeights::new(0));
        stages.push(CodecDownsampleStageWeights::new(1));
        CodecDownsampleWeights { stages }
    }
}

impl Default for CodecDownsampleWeights {
    fn default() -> (r: Self)
        ensures
            r.whole(),
    {
        CodecDownsampleWeights::new()
    }
}

/// The names of the tensors of an upsampling stage.
#[derive(Debug)]
pub struct CodecUpsampleStageWeights {
    pub index: usize,
    pub conv_transpose_weight: String,
    pub conv_transpose_bias: String,
    pub convnext_gamma: String,
    pub dwconv_weight: String,
    pub dwconv_bias: String,
    pub norm_weight: String,
    pub norm_bias: String,
    pub pwconv1_weight: String,
    pub pwconv1_bias: String,
    pub pwconv2_weight: String,
    pub pwconv2_bias: String,
}

/// The prefix of an upsampling stage.
pub open spec fn upsample_prefix(index: usize) -> Seq<char> {
    "quantizer.upsample."@ + dec(index as nat)
}

impl CodecUpsampleStageWeights {
    /// Whether the names are those of a stage.
    pub open spec fn of(&self, index: usize) -> bool {
        &&& self.index == index
        &&& self.conv_transpose_weight@ == upsample_prefix(index) + ".0.conv.weight"@
        &&& self.conv_transpose_bias@ == upsample_prefix(index) + ".0.conv.bias"@
        &&& self.convnext_gamma@ == upsample_prefix(index) + ".1.gamma"@
        &&& self.dwconv_weight@ == upsample_prefix(index) + ".1.dwconv.conv.weight"@
        &&& self.dwconv_bias@ == upsample_prefix(index) + ".1.dwconv.conv.bias"@
        &&& self.norm_weight@ == upsample_prefix(index) + ".1.norm.weight"@
        &&& self.norm_bias@ == upsample_prefix(index) + ".1.norm.bias"@
        &&& self.pwconv1_weight@ == upsample_prefix(index) + ".1.pwconv1.weight"@
        &&& self.pwconv1_bias@ == upsample_prefix(index) + ".1.pwconv1.bias"@
        &&& self.pwconv2_weight@ == upsample_prefix(index) + ".1.pwconv2.weight"@
        &&& self.pwconv2_bias@ == upsample_prefix(index) + ".1.pwconv2.bias"@
    }

    /// The names of a stage.
    pub fn new(index: usize) -> (r: CodecUpsampleStageWeights)
        ensures
            r.of(index),
    {
        let whole = with_number("quantizer.upsample.", index);
        let prefix = whole.as_str();
        CodecUpsampleStageWeights {
            index,
            conv_transpose_weight: with_tail(prefix, ".0.conv.weight"),
            conv_transpose_bias: with_tail(prefix, ".0.conv.bias"),
            convnext_gamma: with_tail(prefix, ".1.gamma"),
            dwconv_weight: with_tail(prefix, ".1.dwconv.conv.weight"),
            dwconv_bias: with_tail(prefix, ".1.dwconv.conv.bias"),
            norm_weight: with_tail(prefix, ".1.norm.weight"),
            norm_bias: with_tail(prefix, ".1.norm.bias"),
            pwconv1_weight: with_tail(prefix, ".1.pwconv1.weight"),
            pwconv1_bias: with_tail(prefix, ".1.pwconv1.bias"),
            pwconv2_weight: with_tail(prefix, ".1.pwconv2.weight"),
            pwconv2_bias: with_tail(prefix, ".1.pwconv2.bias"),
        }
    }
}

/// The names of the tensors of all such stages.
#[derive(Debug)]
pub struct CodecUpsampleWeights {
    pub stages: Vec<CodecUpsampleStageWeights>,
}

impl CodecUpsampleWeights {
    /// Whether the names are those of the two stages.
    pub open spec fn whole(&self) -> bool {
        &&& self.stages@.len() == 2
        &&& self.stages@[0].of(0)
        &&& self.stages@[1].of(1)
    }

    /// The names of the two stages.
    pub fn new() -> (r: CodecUpsampleWeights)
        ensures
            r.whole(),
    {
        let mut stages: Vec<CodecUpsampleStageWeights> = Vec::new();
        stages.push(CodecUpsampleStageWeights::new(0));
        stages.push(CodecUpsampleStageWeights::new(1));
        CodecUpsampleWeights { stages }
    }
}

impl Default for CodecUpsampleWeights {
    fn default() -> (r: Self)
        ensures
            r.whole(),
    {
        CodecUpsampleWeights::new()
    }
}

/// The names of the tensors of a residual unit.
#[derive(Debug)]
pub struct CodecResidualUnitWeights {
    pub snake0_alpha: String,
    pub conv0_weight: String,
    pub conv0_bias: String,
    pub snake1_alpha: String,
    pub conv1_weight: String,
    pub conv1_bias: String,
}

impl CodecResidualUnitWeights {
    /// Whether the names are those under a prefix.
    pub open spec fn under(&self, prefix: Seq<char>) -> bool {
        &&& self.snake0_alpha@ == prefix + ".block.0.alpha"@
        &&& self.conv0_weight@ == prefix + ".block.1.conv.weight"@
        &&& self.conv0_bias@ == prefix + ".block.1.conv.bias"@
        &&& self.snake1_alpha@ == prefix + ".block.2.alpha"@
        &&& self.conv1_weight@ == prefix + ".block.3.conv.weight"@
        &&& self.conv1_bias@ == prefix + ".block.3.conv.bias"@
    }

    /// The names under a prefix.
    pub fn new(prefix: &str) -> (r: CodecResidualUnitWeights)
        ensures
            r.under(prefix@),
    {
        CodecResidualUnitWeights {
            snake0_alpha: with_tail(prefix, ".block.0.alpha"),
            conv0_weight: with_tail(prefix, ".block.1.conv.weight"),
            conv0_bias: with_tail(prefix, ".block.1.conv.bias"),
            snake1_alpha: with_tail(prefix, ".block.2.alpha"),
            conv1_weight: with_tail(prefix, ".block.3.conv.weight"),
            conv1_bias: with_tail(prefix, ".block.3.conv.bias"),
        }
    }
}

/// The names of the tensors of an encoder block.
#[derive(Debug)]
pub struct CodecEncoderBlockWeights {
    pub index: usize,
    pub residual_1: CodecResidualUnitWeights,
    pub residual_2: CodecResidualUnitWeights,
    pub residual_3: CodecResidualUnitWeights,
    pub snake_alpha: String,
    pub down_conv_weight: String,
    pub down_conv_bias: String,
    pub transformer_layers: Vec<CodecTransformerLayerWeights>,
    pub transformer_norm_weight: Option<String>,
}

/// The prefix of an encoder block.
pub open spec fn encoder_prefix(index: usize) -> Seq<char> {
    "encoder.block."@ + dec(index as nat) + ".block"@
}

impl CodecEncoderBlockWeights {
    /// Whether the names are those of an encoder block. The last block has a transformer.
    pub open spec fn of(&self, index: usize) -> bool {
        let prefix = encoder_prefix(index);
        &&& self.index == index
        &&& self.residual_1.under(prefix + ".0"@)
        &&& self.residual_2.under(prefix + ".1"@)
        &&& self.residual_3.under(prefix + ".2"@)
        &&& self.snake_alpha@ == prefix + ".3.alpha"@
        &&& self.down_conv_weight@ == prefix + ".4.conv.weight"@
        &&& self.down_conv_bias@ == prefix + ".4.conv.bias"@
        &&& if index == 4 {
            &&& self.transformer_layers@.len() == 4
            &&& forall|i: int|
                0 <= i < 4 ==> (#[trigger] self.transformer_layers@[i]).of(
                    prefix + ".5"@,
                    i as usize,
                )
            &&& self.transformer_norm_weight matches Some(n) && n@ == prefix + ".5.norm.weight"@
        } else {
            self.transformer_layers@.len() == 0 && self.transformer_norm_weight is None
        }
    }

    /// The names of an encoder block.
    pub fn new(index: usize) -> (r: CodecEncoderBlockWeights)
        ensures
            r.of(index),
    {
        let digits = dec_usize(index);
        let whole = String::from_str("encoder.block.").concat(digits.as_str()).concat(".block");
        let prefix = whole.as_str();
        let first = with_tail(prefix, ".0");
        let second = with_tail(prefix, ".1");
        let third = with_tail(prefix, ".2");
        let last = index == CODEC_ENCODER_BLOCK_COUNT;
        let module = with_tail(prefix, ".5");
        let transformer_layers = if last {
            module_layers(module.as_str(), CODEC_ENCODER_TRANSFORMER_LAYERS)
        } else {
            Vec::new()
        };
        let transformer_norm_weight = if last {
            Some(with_tail(prefix, ".5.norm.weight"))
        } else {
            None
        };
        CodecEncoderBlockWeights {
            index,
            residual_1: CodecResidualUnitWeights::new(first.as_str()),
            residual_2: CodecResidualUnitWeights::new(second.as_str()),
            residual_3: CodecResidualUnitWeights::new(third.as_str()),
            snake_alpha: with_tail(prefix, ".3.alpha"),
            down_conv_weight: with_tail(prefix, ".4.conv.weight"),
            down_conv_bias: with_tail(prefix, ".4.conv.bias"),
            transformer_layers,
            transformer_norm_weight,
        }
    }
}

/// The names of the tensors of the encoder.
#[derive(Debug)]
pub struct CodecEncoderWeights {
    pub entry_conv_weight: String,
    pub entry_conv_bias: String,
    pub blocks: Vec<CodecEncoderBlockWeights>,
    pub tail_snake_alpha: String,
    pub output_conv_weight: String,
    pub output_conv_bias: String,
}

impl CodecEncoderWeights {
    /// Whether the names are those of the encoder.
    pub open spec fn whole(&self) -> bool {
        &&& self.entry_conv_weight@ == "encoder.block.0.conv.weight"@
        &&& self.entry_conv_bias@ == "encoder.block.0.conv.bias"@
        &&& self.blocks@.len() == 4
        &&& forall|i: int| 0 <= i < 4 ==> (#[trigger] self.blocks@[i]).of((i + 1) as usize)
        &&& self.tail_snake_alpha@ == "encoder.block.5.alpha"@
        &&& self.output_conv_weight@ == "encoder.block.6.conv.weight"@
        &&& self.output_conv_bias@ == "encoder.block.6.conv.bias"@
    }

    /// The names of the encoder.
    pub fn new() -> (r: CodecEncoderWeights)
        ensures
            r.whole(),
    {
        let mut blocks: Vec<CodecEncoderBlockWeights> = Vec::new();
        let mut i: usize = 0;
        while i < CODEC_ENCODER_BLOCK_COUNT
            invariant
                i <= CODEC_ENCODER_BLOCK_COUNT,
                blocks@.len() == i,
                forall|k: int| 0 <= k < i ==> (#[trigger] blocks@[k]).of((k + 1) as usize),
            decreases CODEC_ENCODER_BLOCK_COUNT - i,
        {
            blocks.push(CodecEncoderBlockWeights::new(i + 1));
            i = i + 1;
        }
        CodecEncoderWeights {
            entry_conv_weight: String::from_str("encoder.block.0.conv.weight"),
            entry_conv_bias: String::from_str("encoder.block.0.conv.bias"),
            blocks,
            tail_snake_alpha: String::from_str("encoder.block.5.alpha"),
            output_conv_weight: String::from_str("encoder.block.6.conv.weight"),
            output_conv_bias: String::from_str("encoder.block.6.conv.bias"),
        }
    }
}

impl Default for CodecEncoderWeights {
    fn default() -> (r: Self)
        ensures
            r.whole(),
    {
        CodecEncoderWeights::new()
    }
}

/// The names of the tensors of a decoder block.
#[derive(Debug)]
pub struct CodecDecoderBlockWeights {
    pub index: usize,
    pub snake_alpha: String,
    pub conv_transpose_weight: String,
    pub conv_transpose_bias: String,
    pub residual_1: CodecResidualUnitWeights,
    pub residual_2: CodecResidualUnitWeights,
    pub residual_3: CodecResidualUnitWeights,
}

/// The prefix of a decoder block.
pub open spec fn decoder_prefix(index: usize) -> Seq<char> {
    "decoder.model."@ + dec(index as nat)
}

impl CodecDecoderBlockWeights {
    /// Whether the names are those of a decoder block.
    pub open spec fn of(&self, index: usize) -> bool {
        let prefix = decoder_prefix(index);
        &&& self.index == index
        &&& self.snake_alpha@ == prefix + ".block.0.alpha"@
        &&& self.conv_transpose_weight@ == prefix + ".block.1.conv.weight"@
        &&& self.conv_transpose_bias@ == prefix + ".block.1.conv.bias"@
        &&& self.residual_1.under(prefix + ".block.2"@)
        &&& self.residual_2.under(prefix + ".block.3"@)
        &&& self.residual_3.under(prefix + ".block.4"@)
    }

    /// The names of a decoder block.
    pub fn new(index: usize) -> (r: CodecDecoderBlockWeights)
        ensures
            r.of(index),
    {
        let whole = with_number("decoder.model.", index);
        let prefix = whole.as_str();
        let first = with_tail(prefix, ".block.2");
        let second = with_tail(prefix, ".block.3");
        let third = with_tail(prefix, ".block.4");
        CodecDecoderBlockWeights {
            index,
            snake_alpha: with_tail(prefix, ".block.0.alpha"),
            conv_transpose_weight: with_tail(prefix, ".block.1.conv.weight"),
            conv_transpose_bias: with_tail(prefix, ".block.1.conv.bias"),
            residual_1: CodecResidualUnitWeights::new(first.as_str()),
            residual_2: CodecResidualUnitWeights::new(second.as_str()),
            residual_3: CodecResidualUnitWeights::new(third.as_str()),
        }
    }
}

/// The names of the tensors of the decoder.
#[derive(Debug)]
pub struct CodecDecoderWeights {
    pub entry_conv_weight: String,
    pub entry_conv_bias: String,
    pub blocks: Vec<CodecDecoderBlockWeights>,
    pub tail_snake_alpha: String,
    pub output_conv_weight: String,
    pub output_conv_bias: String,
}

impl CodecDecoderWeights {
    /// Whether the names are those of the decoder.
    pub open spec fn whole(&self) -> bool {
        &&& self.entry_conv_weight@ == "decoder.model.0.conv.weight"@
        &&& self.entry_conv_bias@ == "decoder.model.0.conv.bias"@
        &&& self.blocks@.len() == 4
        &&& forall|i: int| 0 <= i < 4 ==> (#[trigger] self.blocks@[i]).of((i + 1) as usize)
        &&& self.tail_snake_alpha@ == "decoder.model.5.alpha"@
        &&& self.output_conv_weight@ == "decoder.model.6.conv.weight"@
        &&& self.output_conv_bias@ == "decoder.model.6.conv.bias"@
    }

    /// The names of the decoder.
    pub fn new() -> (r: CodecDecoderWeights)
        ensures
            r.whole(),
    {
        let mut blocks: Vec<CodecDecoderBlockWeights> = Vec::new();
        let mut i: usize = 0;
        while i < CODEC_DECODER_BLOCK_COUNT
            invariant
                i <= CODEC_DECODER_BLOCK_COUNT,
                blocks@.len() == i,
                forall|k: int| 0 <= k < i ==> (#[trigger] blocks@[k]).of((k + 1) as usize),
            decreases CODEC_DECODER_BLOCK_COUNT - i,
        {
            blocks.push(CodecDecoderBlockWeights::new(i + 1));
            i = i + 1;
        }
        CodecDecoderWeights {
            entry_conv_weight: String::from_str("decoder.model.0.conv.weight"),
            entry_conv_bias: String::from_str("decoder.model.0.conv.bias"),
            blocks,
            tail_snake_alpha: String::from_str("decoder.model.5.alpha"),
            output_conv_weight: String::from_str("decoder.model.6.conv.weight"),
            output_conv_bias: String::from_str("decoder.model.6.conv.bias"),
        }
    }
}

impl Default for CodecDecoderWeights {
    fn default() -> (r: Self)
        ensures
            r.whole(),
    {
        CodecDecoderWeights::new()
    }
}

} // verus!
