//! Weights of the codec, read from a model file.
use crate::codec_names::{
    downsample_prefix, layer_prefix, residual_prefix, semantic_prefix, upsample_prefix,
    CodecDownsampleStageWeights, CodecQuantizerWeights, CodecResidualUnitWeights,
    CodecTransformerLayerWeights, CodecUpsampleStageWeights,
};
use crate::codec_registry::{codec_error, CodecTensorRegistry};
use crate::error::{message, ErrorView, InferError};
use crate::gguf::{tensors_inside, FileView, GgufFile};
use crate::numeric::{Calc, Op};
use crate::sizes::{is_finding, or_else, same_sizes};
use crate::slow_sequence::first_of;
use crate::slow_weights::{are_values, is_tensor, read_error, to_values, wide_of};
use crate::tensor::{F16TensorView, WideView};
use crate::text::{join_strings, joined, list_text, show_sizes, sizes, strings};
use vstd::prelude::*;
use vstd::string::*;

verus! {

// ---------------------------------------------------------------------
// Dimensions
// ---------------------------------------------------------------------

/// What is said of a tensor whose dimensions are not the expected ones.
pub open spec fn f16_dims_text(t: WideView, expected: Seq<usize>) -> Seq<char> {
    t.name + ": expected "@ + list_text(sizes(expected)) + ", got "@ + list_text(
        sizes(t.dimensions),
    )
}

/// What is wrong with the dimensions of a tensor, if anything.
pub open spec fn f16_dims_error(t: WideView, expected: Seq<usize>) -> Option<ErrorView> {
    if t.dimensions == expected {
        None
    } else {
        Some(message(f16_dims_text(t, expected)))
    }
}

pub(crate) fn dims_text(t: &F16TensorView, expected: &[usize]) -> (r: String)
    ensures
        r@ == f16_dims_text(t@, expected@),
{
    let a = show_sizes(expected);
    let b = show_sizes(t.dimensions());
    String::from_str(t.name()).concat(": expected ").concat(a.as_str()).concat(", got ").concat(
        b.as_str(),
    )
}

pub(crate) fn check_dims(t: &F16TensorView, expected: &[usize]) -> (r: Result<(), InferError>)
    ensures
        is_finding(r, f16_dims_error(t@, expected@)),
{
    if same_sizes(t.dimensions(), expected) {
        Ok(())
    } else {
        Err(InferError::Message(dims_text(t, expected)))
    }
}

/// A list of one size.
pub open spec fn d1(a: usize) -> Seq<usize> {
    seq![a]
}

/// A list of two sizes.
pub open spec fn d2(a: usize, b: usize) -> Seq<usize> {
    seq![a, b]
}

/// A list of three sizes.
pub open spec fn d3(a: usize, b: usize, c: usize) -> Seq<usize> {
    seq![a, b, c]
}

/// The tensor under a name, where it can be read.
pub open spec fn tensor_at(f: FileView, file: Seq<u8>, name: Seq<char>) -> WideView {
    wide_of(f, file, name)->Ok_0
}

pub(crate) fn list1(a: usize) -> (r: Vec<usize>)
    ensures
        r@ == d1(a),
{
    let mut v: Vec<usize> = Vec::new();
    v.push(a);
    assert(v@ =~= d1(a));
    v
}

pub(crate) fn list2(a: usize, b: usize) -> (r: Vec<usize>)
    ensures
        r@ == d2(a, b),
{
    let mut v: Vec<usize> = Vec::new();
    v.push(a);
    v.push(b);
    assert(v@ =~= d2(a, b));
    v
}

pub(crate) fn list3(a: usize, b: usize, c: usize) -> (r: Vec<usize>)
    ensures
        r@ == d3(a, b, c),
{
    let mut v: Vec<usize> = Vec::new();
    v.push(a);
    v.push(b);
    v.push(c);
    assert(v@ =~= d3(a, b, c));
    v
}

/// The weights of a codec transformer layer, as they are stored.
#[derive(Debug)]
pub struct CodecTransformerLayerF16Weights {
    pub module: String,
    pub layer: usize,
    pub attention_wqkv: F16TensorView,
    pub attention_output: F16TensorView,
    pub attention_norm: F16TensorView,
    pub ffn_norm: F16TensorView,
    pub feed_forward_w1: F16TensorView,
    pub feed_forward_w2: F16TensorView,
    pub feed_forward_w3: F16TensorView,
    pub attention_layer_scale: F16TensorView,
    pub ffn_layer_scale: F16TensorView,
}

/// The weights of a codec transformer layer as values.
#[derive(Debug)]
pub struct CodecTransformerLayerValues<T> {
    pub attention_wqkv: Vec<T>,
    pub attention_output: Vec<T>,
    pub attention_norm: Vec<T>,
    pub ffn_norm: Vec<T>,
    pub feed_forward_w1: Vec<T>,
    pub feed_forward_w2: Vec<T>,
    pub feed_forward_w3: Vec<T>,
    pub attention_layer_scale: Vec<T>,
    pub ffn_layer_scale: Vec<T>,
}

impl CodecTransformerLayerF16Weights {
    /// What is wrong with reading the tensors under a prefix, if anything.
    pub open spec fn read_finding(f: FileView, file: Seq<u8>, prefix: Seq<char>) -> Option<
        ErrorView,
    > {
        or_else(
            read_error(f, file, prefix + ".attention.wqkv.weight"@),
            or_else(
                read_error(f, file, prefix + ".attention.wo.weight"@),
                or_else(
                    read_error(f, file, prefix + ".attention_norm.weight"@),
                    or_else(
                        read_error(f, file, prefix + ".ffn_norm.weight"@),
                        or_else(
                            read_error(f, file, prefix + ".feed_forward.w1.weight"@),
                            or_else(
                                read_error(f, file, prefix + ".feed_forward.w2.weight"@),
                                or_else(
                                    read_error(f, file, prefix + ".feed_forward.w3.weight"@),
                                    or_else(
                                        read_error(f, file, prefix + ".attention_layer_scale.gamma"@),
                                        read_error(f, file, prefix + ".ffn_layer_scale.gamma"@),
                                    ),
                                ),
                            ),
                        ),
                    ),
                ),
            ),
        )
    }

    /// Whether the weights are those under a prefix.
    pub open spec fn are_under(&self, f: FileView, file: Seq<u8>, prefix: Seq<char>) -> bool {
        &&& is_tensor(self.attention_wqkv, f, file, prefix + ".attention.wqkv.weight"@)
        &&& is_tensor(self.attention_output, f, file, prefix + ".attention.wo.weight"@)
        &&& is_tensor(self.attention_norm, f, file, prefix + ".attention_norm.weight"@)
        &&& is_tensor(self.ffn_norm, f, file, prefix + ".ffn_norm.weight"@)
        &&& is_tensor(self.feed_forward_w1, f, file, prefix + ".feed_forward.w1.weight"@)
        &&& is_tensor(self.feed_forward_w2, f, file, prefix + ".feed_forward.w2.weight"@)
        &&& is_tensor(self.feed_forward_w3, f, file, prefix + ".feed_forward.w3.weight"@)
        &&& is_tensor(self.attention_layer_scale, f, file, prefix + ".attention_layer_scale.gamma"@)
        &&& is_tensor(self.ffn_layer_scale, f, file, prefix + ".ffn_layer_scale.gamma"@)
    }

    /// Whether the names are those under a prefix.
    pub open spec fn names_are(n: CodecTransformerLayerWeights, prefix: Seq<char>) -> bool {
        &&& n.attention_wqkv@ == prefix + ".attention.wqkv.weight"@
        &&& n.attention_output@ == prefix + ".attention.wo.weight"@
        &&& n.attention_norm@ == prefix + ".attention_norm.weight"@
        &&& n.ffn_norm@ == prefix + ".ffn_norm.weight"@
        &&& n.feed_forward_w1@ == prefix + ".feed_forward.w1.weight"@
        &&& n.feed_forward_w2@ == prefix + ".feed_forward.w2.weight"@
        &&& n.feed_forward_w3@ == prefix + ".feed_forward.w3.weight"@
        &&& n.attention_layer_scale@ == prefix + ".attention_layer_scale.gamma"@
        &&& n.ffn_layer_scale@ == prefix + ".ffn_layer_scale.gamma"@
    }

    /// The weights of the given names.
    pub(crate) fn from_names(
        gguf: &GgufFile,
        file: &[u8],
        names: &CodecTransformerLayerWeights,
        prefix: Ghost<Seq<char>>,
    ) -> (r: Result<CodecTransformerLayerF16Weights, InferError>)
        requires
            tensors_inside(gguf@),
            CodecTransformerLayerF16Weights::names_are(*names, prefix@),
        ensures
            match r {
                Ok(w) => {
                    &&& CodecTransformerLayerF16Weights::read_finding(gguf@, file@, prefix@) is None
                    &&& w.are_under(gguf@, file@, prefix@)
                    &&& w.module@ == names.module@
                    &&& w.layer == names.layer
                },
                Err(e) => CodecTransformerLayerF16Weights::read_finding(gguf@, file@, prefix@) == Some(e@),
            },
    {
        let attention_wqkv = match F16TensorView::from_gguf(gguf, file, names.attention_wqkv.as_str()) {
            Err(e) => {
                return Err(e);
            },
            Ok(t) => t,
        };
        let attention_output = match F16TensorView::from_gguf(gguf, file, names.attention_output.as_str()) {
            Err(e) => {
                return Err(e);
            },
            Ok(t) => t,
        };
        let attention_norm = match F16TensorView::from_gguf(gguf, file, names.attention_norm.as_str()) {
            Err(e) => {
                return Err(e);
            },
            Ok(t) => t,
        };
        let ffn_norm = match F16TensorView::from_gguf(gguf, file, names.ffn_norm.as_str()) {
            Err(e) => {
                return Err(e);
            },
            Ok(t) => t,
        };
        let feed_forward_w1 = match F16TensorView::from_gguf(gguf, file, names.feed_forward_w1.as_str()) {
            Err(e) => {
                return Err(e);
            },
            Ok(t) => t,
        };
        let feed_forward_w2 = match F16TensorView::from_gguf(gguf, file, names.feed_forward_w2.as_str()) {
            Err(e) => {
                return Err(e);
            },
            Ok(t) => t,
        };
        let feed_forward_w3 = match F16TensorView::from_gguf(gguf, file, names.feed_forward_w3.as_str()) {
            Err(e) => {
                return Err(e);
            },
            Ok(t) => t,
        };
        let attention_layer_scale = match F16TensorView::from_gguf(gguf, file, names.attention_layer_scale.as_str()) {
            Err(e) => {
                return Err(e);
            },
            Ok(t) => t,
        };
        let ffn_layer_scale = match F16TensorView::from_gguf(gguf, file, names.ffn_layer_scale.as_str()) {
            Err(e) => {
                return Err(e);
            },
            Ok(t) => t,
        };
        Ok(
            CodecTransformerLayerF16Weights {
                module: names.module.clone(),
                layer: names.layer,
                attention_wqkv,
                attention_output,
                attention_norm,
                ffn_norm,
                feed_forward_w1,
                feed_forward_w2,
                feed_forward_w3,
                attention_layer_scale,
                ffn_layer_scale,
            },
        )
    }

    /// What is wrong with the dimensions, if anything.
    pub open spec fn dims_finding(&self) -> Option<ErrorView> {
        or_else(
            f16_dims_error(self.attention_wqkv@, d2(1024, 3072)),
            or_else(
                f16_dims_error(self.attention_output@, d2(1024, 1024)),
                or_else(
                    f16_dims_error(self.feed_forward_w1@, d2(1024, 3072)),
                    or_else(
                        f16_dims_error(self.feed_forward_w3@, d2(1024, 3072)),
                        or_else(
                            f16_dims_error(self.feed_forward_w2@, d2(3072, 1024)),
                            or_else(
                                f16_dims_error(self.ffn_norm@, d1(1024)),
                                or_else(
                                    f16_dims_error(self.attention_norm@, d1(1024)),
                                    or_else(
                                        f16_dims_error(self.attention_layer_scale@, d1(1024)),
                                        f16_dims_error(self.ffn_layer_scale@, d1(1024)),
                                    ),
                                ),
                            ),
                        ),
                    ),
                ),
            ),
        )
    }

    /// What is wrong with the dimensions of the tensors under a prefix, if anything.
    pub open spec fn dims_under(f: FileView, file: Seq<u8>, prefix: Seq<char>) -> Option<
        ErrorView,
    > {
        or_else(
            f16_dims_error(tensor_at(f, file, prefix + ".attention.wqkv.weight"@), d2(1024, 3072)),
            or_else(
                f16_dims_error(tensor_at(f, file, prefix + ".attention.wo.weight"@), d2(1024, 1024)),
                or_else(
                    f16_dims_error(tensor_at(f, file, prefix + ".feed_forward.w1.weight"@), d2(1024, 3072)),
                    or_else(
                        f16_dims_error(tensor_at(f, file, prefix + ".feed_forward.w3.weight"@), d2(1024, 3072)),
                        or_else(
                            f16_dims_error(tensor_at(f, file, prefix + ".feed_forward.w2.weight"@), d2(3072, 1024)),
                            or_else(
                                f16_dims_error(tensor_at(f, file, prefix + ".ffn_norm.weight"@), d1(1024)),
                                or_else(
                                    f16_dims_error(tensor_at(f, file, prefix + ".attention_norm.weight"@), d1(1024)),
                                    or_else(
                                        f16_dims_error(tensor_at(f, file, prefix + ".attention_layer_scale.gamma"@), d1(1024)),
                                        f16_dims_error(tensor_at(f, file, prefix + ".ffn_layer_scale.gamma"@), d1(1024)),
                                    ),
                                ),
                            ),
                        ),
                    ),
                ),
            ),
        )
    }

    /// Checks the dimensions.
    pub fn validate_dimensions(&self) -> (r: Result<(), InferError>)
        ensures
            is_finding(r, self.dims_finding()),
    {
        match check_dims(&self.attention_wqkv, list2(1024, 3072).as_slice()) {
            Err(e) => {
                return Err(e);
            },
            Ok(_) => {},
        }
        match check_dims(&self.attention_output, list2(1024, 1024).as_slice()) {
            Err(e) => {
                return Err(e);
            },
            Ok(_) => {},
        }
        match check_dims(&self.feed_forward_w1, list2(1024, 3072).as_slice()) {
            Err(e) => {
                return Err(e);
            },
            Ok(_) => {},
        }
        match check_dims(&self.feed_forward_w3, list2(1024, 3072).as_slice()) {
            Err(e) => {
                return Err(e);
            },
            Ok(_) => {},
        }
        match check_dims(&self.feed_forward_w2, list2(3072, 1024).as_slice()) {
            Err(e) => {
                return Err(e);
            },
            Ok(_) => {},
        }
        match check_dims(&self.ffn_norm, list1(1024).as_slice()) {
            Err(e) => {
                return Err(e);
            },
            Ok(_) => {},
        }
        match check_dims(&self.attention_norm, list1(1024).as_slice()) {
            Err(e) => {
                return Err(e);
            },
            Ok(_) => {},
        }
        match check_dims(&self.attention_layer_scale, list1(1024).as_slice()) {
            Err(e) => {
                return Err(e);
            },
            Ok(_) => {},
        }
        check_dims(&self.ffn_layer_scale, list1(1024).as_slice())
    }

    /// The weights as values.
    pub fn values<T: Copy, F: Fn(Op, T, T, T) -> T>(&self, calc: &Calc<T, F>) -> (r: CodecTransformerLayerValues<T>)
        requires
            calc.works(),
        ensures
            r.come_from_transformer_layer(*self, *calc),
    {
        CodecTransformerLayerValues {
            attention_wqkv: to_values(self.attention_wqkv.values(), calc),
            attention_output: to_values(self.attention_output.values(), calc),
            attention_norm: to_values(self.attention_norm.values(), calc),
            ffn_norm: to_values(self.ffn_norm.values(), calc),
            feed_forward_w1: to_values(self.feed_forward_w1.values(), calc),
            feed_forward_w2: to_values(self.feed_forward_w2.values(), calc),
            feed_forward_w3: to_values(self.feed_forward_w3.values(), calc),
            attention_layer_scale: to_values(self.attention_layer_scale.values(), calc),
            ffn_layer_scale: to_values(self.ffn_layer_scale.values(), calc),
        }
    }
}

impl<T: Copy> CodecTransformerLayerValues<T> {
    /// Whether the values are those of stored weights.
    pub open spec fn come_from_transformer_layer<F: Fn(Op, T, T, T) -> T>(
        &self,
        w: CodecTransformerLayerF16Weights,
        calc: Calc<T, F>,
    ) -> bool {
        &&& are_values(w.attention_wqkv@.values, calc, self.attention_wqkv@)
        &&& are_values(w.attention_output@.values, calc, self.attention_output@)
        &&& are_values(w.attention_norm@.values, calc, self.attention_norm@)
        &&& are_values(w.ffn_norm@.values, calc, self.ffn_norm@)
        &&& are_values(w.feed_forward_w1@.values, calc, self.feed_forward_w1@)
        &&& are_values(w.feed_forward_w2@.values, calc, self.feed_forward_w2@)
        &&& are_values(w.feed_forward_w3@.values, calc, self.feed_forward_w3@)
        &&& are_values(w.attention_layer_scale@.values, calc, self.attention_layer_scale@)
        &&& are_values(w.ffn_layer_scale@.values, calc, self.ffn_layer_scale@)
    }
}

/// The weights of a downsampling stage, as they are stored.
#[derive(Debug)]
pub struct CodecDownsampleStageF16Weights {
    pub index: usize,
    pub conv_weight: F16TensorView,
    pub conv_bias: F16TensorView,
    pub convnext_gamma: F16TensorView,
    pub dwconv_weight: F16TensorView,
    pub dwconv_bias: F16TensorView,
    pub norm_weight: F16TensorView,
    pub norm_bias: F16TensorView,
    pub pwconv1_weight: F16TensorView,
    pub pwconv1_bias: F16TensorView,
    pub pwconv2_weight: F16TensorView,
    pub pwconv2_bias: F16TensorView,
}

/// The weights of a downsampling stage as values.
#[derive(Debug)]
pub struct CodecStageValues<T> {
    pub conv_weight: Vec<T>,
    pub conv_bias: Vec<T>,
    pub convnext_gamma: Vec<T>,
    pub dwconv_weight: Vec<T>,
    pub dwconv_bias: Vec<T>,
    pub norm_weight: Vec<T>,
    pub norm_bias: Vec<T>,
    pub pwconv1_weight: Vec<T>,
    pub pwconv1_bias: Vec<T>,
    pub pwconv2_weight: Vec<T>,
    pub pwconv2_bias: Vec<T>,
}

impl CodecDownsampleStageF16Weights {
    /// What is wrong with reading the tensors under a prefix, if anything.
    pub open spec fn read_finding(f: FileView, file: Seq<u8>, prefix: Seq<char>) -> Option<
        ErrorView,
    > {
        or_else(
            read_error(f, file, prefix + ".0.conv.weight"@),
            or_else(
                read_error(f, file, prefix + ".0.conv.bias"@),
                or_else(
                    read_error(f, file, prefix + ".1.gamma"@),
                    or_else(
                        read_error(f, file, prefix + ".1.dwconv.conv.weight"@),
                        or_else(
                            read_error(f, file, prefix + ".1.dwconv.conv.bias"@),
                            or_else(
                                read_error(f, file, prefix + ".1.norm.weight"@),
                                or_else(
                                    read_error(f, file, prefix + ".1.norm.bias"@),
                                    or_else(
                                        read_error(f, file, prefix + ".1.pwconv1.weight"@),
                                        or_else(
                                            read_error(f, file, prefix + ".1.pwconv1.bias"@),
                                            or_else(
                                                read_error(f, file, prefix + ".1.pwconv2.weight"@),
                                                read_error(f, file, prefix + ".1.pwconv2.bias"@),
                                            ),
                                        ),
                                    ),
                                ),
                            ),
                        ),
                    ),
                ),
            ),
        )
    }

    /// Whether the weights are those under a prefix.
    pub open spec fn are_under(&self, f: FileView, file: Seq<u8>, prefix: Seq<char>) -> bool {
        &&& is_tensor(self.conv_weight, f, file, prefix + ".0.conv.weight"@)
        &&& is_tensor(self.conv_bias, f, file, prefix + ".0.conv.bias"@)
        &&& is_tensor(self.convnext_gamma, f, file, prefix + ".1.gamma"@)
        &&& is_tensor(self.dwconv_weight, f, file, prefix + ".1.dwconv.conv.weight"@)
        &&& is_tensor(self.dwconv_bias, f, file, prefix + ".1.dwconv.conv.bias"@)
        &&& is_tensor(self.norm_weight, f, file, prefix + ".1.norm.weight"@)
        &&& is_tensor(self.norm_bias, f, file, prefix + ".1.norm.bias"@)
        &&& is_tensor(self.pwconv1_weight, f, file, prefix + ".1.pwconv1.weight"@)
        &&& is_tensor(self.pwconv1_bias, f, file, prefix + ".1.pwconv1.bias"@)
        &&& is_tensor(self.pwconv2_weight, f, file, prefix + ".1.pwconv2.weight"@)
        &&& is_tensor(self.pwconv2_bias, f, file, prefix + ".1.pwconv2.bias"@)
    }

    /// Whether the names are those under a prefix.
    pub open spec fn names_are(n: CodecDownsampleStageWeights, prefix: Seq<char>) -> bool {
        &&& n.conv_weight@ == prefix + ".0.conv.weight"@
        &&& n.conv_bias@ == prefix + ".0.conv.bias"@
        &&& n.convnext_gamma@ == prefix + ".1.gamma"@
        &&& n.dwconv_weight@ == prefix + ".1.dwconv.conv.weight"@
        &&& n.dwconv_bias@ == prefix + ".1.dwconv.conv.bias"@
        &&& n.norm_weight@ == prefix + ".1.norm.weight"@
        &&& n.norm_bias@ == prefix + ".1.norm.bias"@
        &&& n.pwconv1_weight@ == prefix + ".1.pwconv1.weight"@
        &&& n.pwconv1_bias@ == prefix + ".1.pwconv1.bias"@
        &&& n.pwconv2_weight@ == prefix + ".1.pwconv2.weight"@
        &&& n.pwconv2_bias@ == prefix + ".1.pwconv2.bias"@
    }

    /// The weights of the given names.
    pub(crate) fn from_names(
        gguf: &GgufFile,
        file: &[u8],
        names: &CodecDownsampleStageWeights,
        prefix: Ghost<Seq<char>>,
    ) -> (r: Result<CodecDownsampleStageF16Weights, InferError>)
        requires
            tensors_inside(gguf@),
            CodecDownsampleStageF16Weights::names_are(*names, prefix@),
        ensures
            match r {
                Ok(w) => {
                    &&& CodecDownsampleStageF16Weights::read_finding(gguf@, file@, prefix@) is None
                    &&& w.are_under(gguf@, file@, prefix@)
                    &&& w.index == names.index
                },
                Err(e) => CodecDownsampleStageF16Weights::read_finding(gguf@, file@, prefix@) == Some(e@),
            },
    {
        let conv_weight = match F16TensorView::from_gguf(gguf, file, names.conv_weight.as_str()) {
            Err(e) => {
                return Err(e);
            },
            Ok(t) => t,
        };
        let conv_bias = match F16TensorView::from_gguf(gguf, file, names.conv_bias.as_str()) {
            Err(e) => {
                return Err(e);
            },
            Ok(t) => t,
        };
        let convnext_gamma = match F16TensorView::from_gguf(gguf, file, names.convnext_gamma.as_str()) {
            Err(e) => {
                return Err(e);
            },
            Ok(t) => t,
        };
        let dwconv_weight = match F16TensorView::from_gguf(gguf, file, names.dwconv_weight.as_str()) {
            Err(e) => {
                return Err(e);
            },
            Ok(t) => t,
        };
        let dwconv_bias = match F16TensorView::from_gguf(gguf, file, names.dwconv_bias.as_str()) {
            Err(e) => {
                return Err(e);
            },
            Ok(t) => t,
        };
        let norm_weight = match F16TensorView::from_gguf(gguf, file, names.norm_weight.as_str()) {
            Err(e) => {
                return Err(e);
            },
            Ok(t) => t,
        };
        let norm_bias = match F16TensorView::from_gguf(gguf, file, names.norm_bias.as_str()) {
            Err(e) => {
                return Err(e);
            },
            Ok(t) => t,
        };
        let pwconv1_weight = match F16TensorView::from_gguf(gguf, file, names.pwconv1_weight.as_str()) {
            Err(e) => {
                return Err(e);
            },
            Ok(t) => t,
        };
        let pwconv1_bias = match F16TensorView::from_gguf(gguf, file, names.pwconv1_bias.as_str()) {
            Err(e) => {
                return Err(e);
            },
            Ok(t) => t,
        };
        let pwconv2_weight = match F16TensorView::from_gguf(gguf, file, names.pwconv2_weight.as_str()) {
            Err(e) => {
                return Err(e);
            },
            Ok(t) => t,
        };
        let pwconv2_bias = match F16TensorView::from_gguf(gguf, file, names.pwconv2_bias.as_str()) {
            Err(e) => {
                return Err(e);
            },
            Ok(t) => t,
        };
        Ok(
            CodecDownsampleStageF16Weights {
                index: names.index,
                conv_weight,
                conv_bias,
                convnext_gamma,
                dwconv_weight,
                dwconv_bias,
                norm_weight,
                norm_bias,
                pwconv1_weight,
                pwconv1_bias,
                pwconv2_weight,
                pwconv2_bias,
            },
        )
    }

    /// What is wrong with the dimensions, if anything.
    pub open spec fn dims_finding(&self) -> Option<ErrorView> {
        or_else(
            f16_dims_error(self.conv_weight@, d3(2, 1024, 1024)),
            or_else(
                f16_dims_error(self.conv_bias@, d1(1024)),
                or_else(
                    f16_dims_error(self.convnext_gamma@, d1(1024)),
                    or_else(
                        f16_dims_error(self.dwconv_weight@, d3(7, 1, 1024)),
                        or_else(
                            f16_dims_error(self.dwconv_bias@, d1(1024)),
                            or_else(
                                f16_dims_error(self.norm_weight@, d1(1024)),
                                or_else(
                                    f16_dims_error(self.norm_bias@, d1(1024)),
                                    or_else(
                                        f16_dims_error(self.pwconv1_weight@, d2(1024, 4096)),
                                        or_else(
                                            f16_dims_error(self.pwconv1_bias@, d1(4096)),
                                            or_else(
                                                f16_dims_error(self.pwconv2_weight@, d2(4096, 1024)),
                                                f16_dims_error(self.pwconv2_bias@, d1(1024)),
                                            ),
                                        ),
                                    ),
                                ),
                            ),
                        ),
                    ),
                ),
            ),
        )
    }

    /// What is wrong with the dimensions of the tensors under a prefix, if anything.
    pub open spec fn dims_under(f: FileView, file: Seq<u8>, prefix: Seq<char>) -> Option<
        ErrorView,
    > {
        or_else(
            f16_dims_error(tensor_at(f, file, prefix + ".0.conv.weight"@), d3(2, 1024, 1024)),
            or_else(
                f16_dims_error(tensor_at(f, file, prefix + ".0.conv.bias"@), d1(1024)),
                or_else(
                    f16_dims_error(tensor_at(f, file, prefix + ".1.gamma"@), d1(1024)),
                    or_else(
                        f16_dims_error(tensor_at(f, file, prefix + ".1.dwconv.conv.weight"@), d3(7, 1, 1024)),
                        or_else(
                            f16_dims_error(tensor_at(f, file, prefix + ".1.dwconv.conv.bias"@), d1(1024)),
                            or_else(
                                f16_dims_error(tensor_at(f, file, prefix + ".1.norm.weight"@), d1(1024)),
                                or_else(
                                    f16_dims_error(tensor_at(f, file, prefix + ".1.norm.bias"@), d1(1024)),
                                    or_else(
                                        f16_dims_error(tensor_at(f, file, prefix + ".1.pwconv1.weight"@), d2(1024, 4096)),
                                        or_else(
                                            f16_dims_error(tensor_at(f, file, prefix + ".1.pwconv1.bias"@), d1(4096)),
                                            or_else(
                                                f16_dims_error(tensor_at(f, file, prefix + ".1.pwconv2.weight"@), d2(4096, 1024)),
                                                f16_dims_error(tensor_at(f, file, prefix + ".1.pwconv2.bias"@), d1(1024)),
                                            ),
                                        ),
                                    ),
                                ),
                            ),
                        ),
                    ),
                ),
            ),
        )
    }

    /// Checks the dimensions.
    pub fn validate_dimensions(&self) -> (r: Result<(), InferError>)
        ensures
            is_finding(r, self.dims_finding()),
    {
        match check_dims(&self.conv_weight, list3(2, 1024, 1024).as_slice()) {
            Err(e) => {
                return Err(e);
            },
            Ok(_) => {},
        }
        match check_dims(&self.conv_bias, list1(1024).as_slice()) {
            Err(e) => {
                return Err(e);
            },
            Ok(_) => {},
        }
        match check_dims(&self.convnext_gamma, list1(1024).as_slice()) {
            Err(e) => {
                return Err(e);
            },
            Ok(_) => {},
        }
        match check_dims(&self.dwconv_weight, list3(7, 1, 1024).as_slice()) {
            Err(e) => {
                return Err(e);
            },
            Ok(_) => {},
        }
        match check_dims(&self.dwconv_bias, list1(1024).as_slice()) {
            Err(e) => {
                return Err(e);
            },
            Ok(_) => {},
        }
        match check_dims(&self.norm_weight, list1(1024).as_slice()) {
            Err(e) => {
                return Err(e);
            },
            Ok(_) => {},
        }
        match check_dims(&self.norm_bias, list1(1024).as_slice()) {
            Err(e) => {
                return Err(e);
            },
            Ok(_) => {},
        }
        match check_dims(&self.pwconv1_weight, list2(1024, 4096).as_slice()) {
            Err(e) => {
                return Err(e);
            },
            Ok(_) => {},
        }
        match check_dims(&self.pwconv1_bias, list1(4096).as_slice()) {
            Err(e) => {
                return Err(e);
            },
            Ok(_) => {},
        }
        match check_dims(&self.pwconv2_weight, list2(4096, 1024).as_slice()) {
            Err(e) => {
                return Err(e);
            },
            Ok(_) => {},
        }
        check_dims(&self.pwconv2_bias, list1(1024).as_slice())
    }

    /// The weights as values.
    pub fn values<T: Copy, F: Fn(Op, T, T, T) -> T>(&self, calc: &Calc<T, F>) -> (r: CodecStageValues<T>)
        requires
            calc.works(),
        ensures
            r.come_from_downsample_stage(*self, *calc),
    {
        CodecStageValues {
            conv_weight: to_values(self.conv_weight.values(), calc),
            conv_bias: to_values(self.conv_bias.values(), calc),
            convnext_gamma: to_values(self.convnext_gamma.values(), calc),
            dwconv_weight: to_values(self.dwconv_weight.values(), calc),
            dwconv_bias: to_values(self.dwconv_bias.values(), calc),
            norm_weight: to_values(self.norm_weight.values(), calc),
            norm_bias: to_values(self.norm_bias.values(), calc),
            pwconv1_weight: to_values(self.pwconv1_weight.values(), calc),
            pwconv1_bias: to_values(self.pwconv1_bias.values(), calc),
            pwconv2_weight: to_values(self.pwconv2_weight.values(), calc),
            pwconv2_bias: to_values(self.pwconv2_bias.values(), calc),
        }
    }
}

impl<T: Copy> CodecStageValues<T> {
    /// Whether the values are those of stored weights.
    pub open spec fn come_from_downsample_stage<F: Fn(Op, T, T, T) -> T>(
        &self,
        w: CodecDownsampleStageF16Weights,
        calc: Calc<T, F>,
    ) -> bool {
        &&& are_values(w.conv_weight@.values, calc, self.conv_weight@)
        &&& are_values(w.conv_bias@.values, calc, self.conv_bias@)
        &&& are_values(w.convnext_gamma@.values, calc, self.convnext_gamma@)
        &&& are_values(w.dwconv_weight@.values, calc, self.dwconv_weight@)
        &&& are_values(w.dwconv_bias@.values, calc, self.dwconv_bias@)
        &&& are_values(w.norm_weight@.values, calc, self.norm_weight@)
        &&& are_values(w.norm_bias@.values, calc, self.norm_bias@)
        &&& are_values(w.pwconv1_weight@.values, calc, self.pwconv1_weight@)
        &&& are_values(w.pwconv1_bias@.values, calc, self.pwconv1_bias@)
        &&& are_values(w.pwconv2_weight@.values, calc, self.pwconv2_weight@)
        &&& are_values(w.pwconv2_bias@.values, calc, self.pwconv2_bias@)
    }
}

/// The weights of an upsampling stage, as they are stored.
#[derive(Debug)]
pub struct CodecUpsampleStageF16Weights {
    pub index: usize,
    pub conv_transpose_weight: F16TensorView,
    pub conv_transpose_bias: F16TensorView,
    pub convnext_gamma: F16TensorView,
    pub dwconv_weight: F16TensorView,
    pub dwconv_bias: F16TensorView,
    pub norm_weight: F16TensorView,
    pub norm_bias: F16TensorView,
    pub pwconv1_weight: F16TensorView,
    pub pwconv1_bias: F16TensorView,
    pub pwconv2_weight: F16TensorView,
    pub pwconv2_bias: F16TensorView,
}

impl CodecUpsampleStageF16Weights {
    /// What is wrong with reading the tensors under a prefix, if anything.
    pub open spec fn read_finding(f: FileView, file: Seq<u8>, prefix: Seq<char>) -> Option<
        ErrorView,
    > {
        or_else(
            read_error(f, file, prefix + ".0.conv.weight"@),
            or_else(
                read_error(f, file, prefix + ".0.conv.bias"@),
                or_else(
                    read_error(f, file, prefix + ".1.gamma"@),
                    or_else(
                        read_error(f, file, prefix + ".1.dwconv.conv.weight"@),
                        or_else(
                            read_error(f, file, prefix + ".1.dwconv.conv.bias"@),
                            or_else(
                                read_error(f, file, prefix + ".1.norm.weight"@),
                                or_else(
                                    read_error(f, file, prefix + ".1.norm.bias"@),
                                    or_else(
                                        read_error(f, file, prefix + ".1.pwconv1.weight"@),
                                        or_else(
                                            read_error(f, file, prefix + ".1.pwconv1.bias"@),
                                            or_else(
                                                read_error(f, file, prefix + ".1.pwconv2.weight"@),
                                                read_error(f, file, prefix + ".1.pwconv2.bias"@),
                                            ),
                                        ),
                                    ),
                                ),
                            ),
                        ),
                    ),
                ),
            ),
        )
    }

    /// Whether the weights are those under a prefix.
    pub open spec fn are_under(&self, f: FileView, file: Seq<u8>, prefix: Seq<char>) -> bool {
        &&& is_tensor(self.conv_transpose_weight, f, file, prefix + ".0.conv.weight"@)
        &&& is_tensor(self.conv_transpose_bias, f, file, prefix + ".0.conv.bias"@)
        &&& is_tensor(self.convnext_gamma, f, file, prefix + ".1.gamma"@)
        &&& is_tensor(self.dwconv_weight, f, file, prefix + ".1.dwconv.conv.weight"@)
        &&& is_tensor(self.dwconv_bias, f, file, prefix + ".1.dwconv.conv.bias"@)
        &&& is_tensor(self.norm_weight, f, file, prefix + ".1.norm.weight"@)
        &&& is_tensor(self.norm_bias, f, file, prefix + ".1.norm.bias"@)
        &&& is_tensor(self.pwconv1_weight, f, file, prefix + ".1.pwconv1.weight"@)
        &&& is_tensor(self.pwconv1_bias, f, file, prefix + ".1.pwconv1.bias"@)
        &&& is_tensor(self.pwconv2_weight, f, file, prefix + ".1.pwconv2.weight"@)
        &&& is_tensor(self.pwconv2_bias, f, file, prefix + ".1.pwconv2.bias"@)
    }

    /// Whether the names are those under a prefix.
    pub open spec fn names_are(n: CodecUpsampleStageWeights, prefix: Seq<char>) -> bool {
        &&& n.conv_transpose_weight@ == prefix + ".0.conv.weight"@
        &&& n.conv_transpose_bias@ == prefix + ".0.conv.bias"@
        &&& n.convnext_gamma@ == prefix + ".1.gamma"@
        &&& n.dwconv_weight@ == prefix + ".1.dwconv.conv.weight"@
        &&& n.dwconv_bias@ == prefix + ".1.dwconv.conv.bias"@
        &&& n.norm_weight@ == prefix + ".1.norm.weight"@
        &&& n.norm_bias@ == prefix + ".1.norm.bias"@
        &&& n.pwconv1_weight@ == prefix + ".1.pwconv1.weight"@
        &&& n.pwconv1_bias@ == prefix + ".1.pwconv1.bias"@
        &&& n.pwconv2_weight@ == prefix + ".1.pwconv2.weight"@
        &&& n.pwconv2_bias@ == prefix + ".1.pwconv2.bias"@
    }

    /// The weights of the given names.
    pub(crate) fn from_names(
        gguf: &GgufFile,
        file: &[u8],
        names: &CodecUpsampleStageWeights,
        prefix: Ghost<Seq<char>>,
    ) -> (r: Result<CodecUpsampleStageF16Weights, InferError>)
        requires
            tensors_inside(gguf@),
            CodecUpsampleStageF16Weights::names_are(*names, prefix@),
        ensures
            match r {
                Ok(w) => {
                    &&& CodecUpsampleStageF16Weights::read_finding(gguf@, file@, prefix@) is None
                    &&& w.are_under(gguf@, file@, prefix@)
                    &&& w.index == names.index
                },
                Err(e) => CodecUpsampleStageF16Weights::read_finding(gguf@, file@, prefix@) == Some(e@),
            },
    {
        let conv_transpose_weight = match F16TensorView::from_gguf(gguf, file, names.conv_transpose_weight.as_str()) {
            Err(e) => {
                return Err(e);
            },
            Ok(t) => t,
        };
        let conv_transpose_bias = match F16TensorView::from_gguf(gguf, file, names.conv_transpose_bias.as_str()) {
            Err(e) => {
                return Err(e);
            },
            Ok(t) => t,
        };
        let convnext_gamma = match F16TensorView::from_gguf(gguf, file, names.convnext_gamma.as_str()) {
            Err(e) => {
                return Err(e);
            },
            Ok(t) => t,
        };
        let dwconv_weight = match F16TensorView::from_gguf(gguf, file, names.dwconv_weight.as_str()) {
            Err(e) => {
                return Err(e);
            },
            Ok(t) => t,
        };
        let dwconv_bias = match F16TensorView::from_gguf(gguf, file, names.dwconv_bias.as_str()) {
            Err(e) => {
                return Err(e);
            },
            Ok(t) => t,
        };
        let norm_weight = match F16TensorView::from_gguf(gguf, file, names.norm_weight.as_str()) {
            Err(e) => {
                return Err(e);
            },
            Ok(t) => t,
        };
        let norm_bias = match F16TensorView::from_gguf(gguf, file, names.norm_bias.as_str()) {
            Err(e) => {
                return Err(e);
            },
            Ok(t) => t,
        };
        let pwconv1_weight = match F16TensorView::from_gguf(gguf, file, names.pwconv1_weight.as_str()) {
            Err(e) => {
                return Err(e);
            },
            Ok(t) => t,
        };
        let pwconv1_bias = match F16TensorView::from_gguf(gguf, file, names.pwconv1_bias.as_str()) {
            Err(e) => {
                return Err(e);
            },
            Ok(t) => t,
        };
        let pwconv2_weight = match F16TensorView::from_gguf(gguf, file, names.pwconv2_weight.as_str()) {
            Err(e) => {
                return Err(e);
            },
            Ok(t) => t,
        };
        let pwconv2_bias = match F16TensorView::from_gguf(gguf, file, names.pwconv2_bias.as_str()) {
            Err(e) => {
                return Err(e);
            },
            Ok(t) => t,
        };
        Ok(
            CodecUpsampleStageF16Weights {
                index: names.index,
                conv_transpose_weight,
                conv_transpose_bias,
                convnext_gamma,
                dwconv_weight,
                dwconv_bias,
                norm_weight,
                norm_bias,
                pwconv1_weight,
                pwconv1_bias,
                pwconv2_weight,
                pwconv2_bias,
            },
        )
    }

    /// What is wrong with the dimensions, if anything.
    pub open spec fn dims_finding(&self) -> Option<ErrorView> {
        or_else(
            f16_dims_error(self.conv_transpose_weight@, d3(2, 1024, 1024)),
            or_else(
                f16_dims_error(self.conv_transpose_bias@, d1(1024)),
                or_else(
                    f16_dims_error(self.convnext_gamma@, d1(1024)),
                    or_else(
                        f16_dims_error(self.dwconv_weight@, d3(7, 1, 1024)),
                        or_else(
                            f16_dims_error(self.dwconv_bias@, d1(1024)),
                            or_else(
                                f16_dims_error(self.norm_weight@, d1(1024)),
                                or_else(
                                    f16_dims_error(self.norm_bias@, d1(1024)),
                                    or_else(
                                        f16_dims_error(self.pwconv1_weight@, d2(1024, 4096)),
                                        or_else(
                                            f16_dims_error(self.pwconv1_bias@, d1(4096)),
                                            or_else(
                                                f16_dims_error(self.pwconv2_weight@, d2(4096, 1024)),
                                                f16_dims_error(self.pwconv2_bias@, d1(1024)),
                                            ),
                                        ),
                                    ),
                                ),
                            ),
                        ),
                    ),
                ),
            ),
        )
    }

    /// What is wrong with the dimensions of the tensors under a prefix, if anything.
    pub open spec fn dims_under(f: FileView, file: Seq<u8>, prefix: Seq<char>) -> Option<
        ErrorView,
    > {
        or_else(
            f16_dims_error(tensor_at(f, file, prefix + ".0.conv.weight"@), d3(2, 1024, 1024)),
            or_else(
                f16_dims_error(tensor_at(f, file, prefix + ".0.conv.bias"@), d1(1024)),
                or_else(
                    f16_dims_error(tensor_at(f, file, prefix + ".1.gamma"@), d1(1024)),
                    or_else(
                        f16_dims_error(tensor_at(f, file, prefix + ".1.dwconv.conv.weight"@), d3(7, 1, 1024)),
                        or_else(
                            f16_dims_error(tensor_at(f, file, prefix + ".1.dwconv.conv.bias"@), d1(1024)),
                            or_else(
                                f16_dims_error(tensor_at(f, file, prefix + ".1.norm.weight"@), d1(1024)),
                                or_else(
                                    f16_dims_error(tensor_at(f, file, prefix + ".1.norm.bias"@), d1(1024)),
                                    or_else(
                                        f16_dims_error(tensor_at(f, file, prefix + ".1.pwconv1.weight"@), d2(1024, 4096)),
                                        or_else(
                                            f16_dims_error(tensor_at(f, file, prefix + ".1.pwconv1.bias"@), d1(4096)),
                                            or_else(
                                                f16_dims_error(tensor_at(f, file, prefix + ".1.pwconv2.weight"@), d2(4096, 1024)),
                                                f16_dims_error(tensor_at(f, file, prefix + ".1.pwconv2.bias"@), d1(1024)),
                                            ),
                                        ),
                                    ),
                                ),
                            ),
                        ),
                    ),
                ),
            ),
        )
    }

    /// Checks the dimensions.
    pub fn validate_dimensions(&self) -> (r: Result<(), InferError>)
        ensures
            is_finding(r, self.dims_finding()),
    {
        match check_dims(&self.conv_transpose_weight, list3(2, 1024, 1024).as_slice()) {
            Err(e) => {
                return Err(e);
            },
            Ok(_) => {},
        }
        match check_dims(&self.conv_transpose_bias, list1(1024).as_slice()) {
            Err(e) => {
                return Err(e);
            },
            Ok(_) => {},
        }
        match check_dims(&self.convnext_gamma, list1(1024).as_slice()) {
            Err(e) => {
                return Err(e);
            },
            Ok(_) => {},
        }
        match check_dims(&self.dwconv_weight, list3(7, 1, 1024).as_slice()) {
            Err(e) => {
                return Err(e);
            },
            Ok(_) => {},
        }
        match check_dims(&self.dwconv_bias, list1(1024).as_slice()) {
            Err(e) => {
                return Err(e);
            },
            Ok(_) => {},
        }
        match check_dims(&self.norm_weight, list1(1024).as_slice()) {
            Err(e) => {
                return Err(e);
            },
            Ok(_) => {},
        }
        match check_dims(&self.norm_bias, list1(1024).as_slice()) {
            Err(e) => {
                return Err(e);
            },
            Ok(_) => {},
        }
        match check_dims(&self.pwconv1_weight, list2(1024, 4096).as_slice()) {
            Err(e) => {
                return Err(e);
            },
            Ok(_) => {},
        }
        match check_dims(&self.pwconv1_bias, list1(4096).as_slice()) {
            Err(e) => {
                return Err(e);
            },
            Ok(_) => {},
        }
        match check_dims(&self.pwconv2_weight, list2(4096, 1024).as_slice()) {
            Err(e) => {
                return Err(e);
            },
            Ok(_) => {},
        }
        check_dims(&self.pwconv2_bias, list1(1024).as_slice())
    }

    /// The weights as values.
    pub fn values<T: Copy, F: Fn(Op, T, T, T) -> T>(&self, calc: &Calc<T, F>) -> (r: CodecStageValues<T>)
        requires
            calc.works(),
        ensures
            r.come_from_upsample_stage(*self, *calc),
    {
        CodecStageValues {
            conv_weight: to_values(self.conv_transpose_weight.values(), calc),
            conv_bias: to_values(self.conv_transpose_bias.values(), calc),
            convnext_gamma: to_values(self.convnext_gamma.values(), calc),
            dwconv_weight: to_values(self.dwconv_weight.values(), calc),
            dwconv_bias: to_values(self.dwconv_bias.values(), calc),
            norm_weight: to_values(self.norm_weight.values(), calc),
            norm_bias: to_values(self.norm_bias.values(), calc),
            pwconv1_weight: to_values(self.pwconv1_weight.values(), calc),
            pwconv1_bias: to_values(self.pwconv1_bias.values(), calc),
            pwconv2_weight: to_values(self.pwconv2_weight.values(), calc),
            pwconv2_bias: to_values(self.pwconv2_bias.values(), calc),
        }
    }
}

impl<T: Copy> CodecStageValues<T> {
    /// Whether the values are those of stored weights.
    pub open spec fn come_from_upsample_stage<F: Fn(Op, T, T, T) -> T>(
        &self,
        w: CodecUpsampleStageF16Weights,
        calc: Calc<T, F>,
    ) -> bool {
        &&& are_values(w.conv_transpose_weight@.values, calc, self.conv_weight@)
        &&& are_values(w.conv_transpose_bias@.values, calc, self.conv_bias@)
        &&& are_values(w.convnext_gamma@.values, calc, self.convnext_gamma@)
        &&& are_values(w.dwconv_weight@.values, calc, self.dwconv_weight@)
        &&& are_values(w.dwconv_bias@.values, calc, self.dwconv_bias@)
        &&& are_values(w.norm_weight@.values, calc, self.norm_weight@)
        &&& are_values(w.norm_bias@.values, calc, self.norm_bias@)
        &&& are_values(w.pwconv1_weight@.values, calc, self.pwconv1_weight@)
        &&& are_values(w.pwconv1_bias@.values, calc, self.pwconv1_bias@)
        &&& are_values(w.pwconv2_weight@.values, calc, self.pwconv2_weight@)
        &&& are_values(w.pwconv2_bias@.values, calc, self.pwconv2_bias@)
    }
}

/// The weights of a residual unit, as they are stored.
#[derive(Debug)]
pub struct CodecResidualUnitF16Weights {
    pub snake0_alpha: F16TensorView,
    pub conv0_weight: F16TensorView,
    pub conv0_bias: F16TensorView,
    pub snake1_alpha: F16TensorView,
    pub conv1_weight: F16TensorView,
    pub conv1_bias: F16TensorView,
}

/// The weights of a residual unit as values.
#[derive(Debug)]
pub struct CodecResidualUnitValues<T> {
    pub snake0_alpha: Vec<T>,
    pub conv0_weight: Vec<T>,
    pub conv0_bias: Vec<T>,
    pub snake1_alpha: Vec<T>,
    pub conv1_weight: Vec<T>,
    pub conv1_bias: Vec<T>,
}

impl CodecResidualUnitF16Weights {
    /// What is wrong with reading the tensors under a prefix, if anything.
    pub open spec fn read_finding(f: FileView, file: Seq<u8>, prefix: Seq<char>) -> Option<
        ErrorView,
    > {
        or_else(
            read_error(f, file, prefix + ".block.0.alpha"@),
            or_else(
                read_error(f, file, prefix + ".block.1.conv.weight"@),
                or_else(
                    read_error(f, file, prefix + ".block.1.conv.bias"@),
                    or_else(
                        read_error(f, file, prefix + ".block.2.alpha"@),
                        or_else(
                            read_error(f, file, prefix + ".block.3.conv.weight"@),
                            read_error(f, file, prefix + ".block.3.conv.bias"@),
                        ),
                    ),
                ),
            ),
        )
    }

    /// Whether the weights are those under a prefix.
    pub open spec fn are_under(&self, f: FileView, file: Seq<u8>, prefix: Seq<char>) -> bool {
        &&& is_tensor(self.snake0_alpha, f, file, prefix + ".block.0.alpha"@)
        &&& is_tensor(self.conv0_weight, f, file, prefix + ".block.1.conv.weight"@)
        &&& is_tensor(self.conv0_bias, f, file, prefix + ".block.1.conv.bias"@)
        &&& is_tensor(self.snake1_alpha, f, file, prefix + ".block.2.alpha"@)
        &&& is_tensor(self.conv1_weight, f, file, prefix + ".block.3.conv.weight"@)
        &&& is_tensor(self.conv1_bias, f, file, prefix + ".block.3.conv.bias"@)
    }

    /// Whether the names are those under a prefix.
    pub open spec fn names_are(n: CodecResidualUnitWeights, prefix: Seq<char>) -> bool {
        &&& n.snake0_alpha@ == prefix + ".block.0.alpha"@
        &&& n.conv0_weight@ == prefix + ".block.1.conv.weight"@
        &&& n.conv0_bias@ == prefix + ".block.1.conv.bias"@
        &&& n.snake1_alpha@ == prefix + ".block.2.alpha"@
        &&& n.conv1_weight@ == prefix + ".block.3.conv.weight"@
        &&& n.conv1_bias@ == prefix + ".block.3.conv.bias"@
    }

    /// The weights of the given names.
    pub(crate) fn from_names(
        gguf: &GgufFile,
        file: &[u8],
        names: &CodecResidualUnitWeights,
        prefix: Ghost<Seq<char>>,
    ) -> (r: Result<CodecResidualUnitF16Weights, InferError>)
        requires
            tensors_inside(gguf@),
            CodecResidualUnitF16Weights::names_are(*names, prefix@),
        ensures
            match r {
                Ok(w) => {
                    &&& CodecResidualUnitF16Weights::read_finding(gguf@, file@, prefix@) is None
                    &&& w.are_under(gguf@, file@, prefix@)
                },
                Err(e) => CodecResidualUnitF16Weights::read_finding(gguf@, file@, prefix@) == Some(e@),
            },
    {
        let snake0_alpha = match F16TensorView::from_gguf(gguf, file, names.snake0_alpha.as_str()) {
            Err(e) => {
                return Err(e);
            },
            Ok(t) => t,
        };
        let conv0_weight = match F16TensorView::from_gguf(gguf, file, names.conv0_weight.as_str()) {
            Err(e) => {
                return Err(e);
            },
            Ok(t) => t,
        };
        let conv0_bias = match F16TensorView::from_gguf(gguf, file, names.conv0_bias.as_str()) {
            Err(e) => {
                return Err(e);
            },
            Ok(t) => t,
        };
        let snake1_alpha = match F16TensorView::from_gguf(gguf, file, names.snake1_alpha.as_str()) {
            Err(e) => {
                return Err(e);
            },
            Ok(t) => t,
        };
        let conv1_weight = match F16TensorView::from_gguf(gguf, file, names.conv1_weight.as_str()) {
            Err(e) => {
                return Err(e);
            },
            Ok(t) => t,
        };
        let conv1_bias = match F16TensorView::from_gguf(gguf, file, names.conv1_bias.as_str()) {
            Err(e) => {
                return Err(e);
            },
            Ok(t) => t,
        };
        Ok(
            CodecResidualUnitF16Weights {
                snake0_alpha,
                conv0_weight,
                conv0_bias,
                snake1_alpha,
                conv1_weight,
                conv1_bias,
            },
        )
    }

    /// What is wrong with the dimensions, if anything.
    pub open spec fn dims_finding(&self, channels: usize) -> Option<ErrorView> {
        or_else(
            f16_dims_error(self.snake0_alpha@, d3(1, channels, 1)),
            or_else(
                f16_dims_error(self.conv0_weight@, d3(7, channels, channels)),
                or_else(
                    f16_dims_error(self.conv0_bias@, d1(channels)),
                    or_else(
                        f16_dims_error(self.snake1_alpha@, d3(1, channels, 1)),
                        or_else(
                            f16_dims_error(self.conv1_weight@, d3(1, channels, channels)),
                            f16_dims_error(self.conv1_bias@, d1(channels)),
                        ),
                    ),
                ),
            ),
        )
    }

    /// What is wrong with the dimensions of the tensors under a prefix, if anything.
    pub open spec fn dims_under(f: FileView, file: Seq<u8>, prefix: Seq<char>, channels: usize) -> Option<
        ErrorView,
    > {
        or_else(
            f16_dims_error(tensor_at(f, file, prefix + ".block.0.alpha"@), d3(1, channels, 1)),
            or_else(
                f16_dims_error(tensor_at(f, file, prefix + ".block.1.conv.weight"@), d3(7, channels, channels)),
                or_else(
                    f16_dims_error(tensor_at(f, file, prefix + ".block.1.conv.bias"@), d1(channels)),
                    or_else(
                        f16_dims_error(tensor_at(f, file, prefix + ".block.2.alpha"@), d3(1, channels, 1)),
                        or_else(
                            f16_dims_error(tensor_at(f, file, prefix + ".block.3.conv.weight"@), d3(1, channels, channels)),
                            f16_dims_error(tensor_at(f, file, prefix + ".block.3.conv.bias"@), d1(channels)),
                        ),
                    ),
                ),
            ),
        )
    }

    /// Checks the dimensions.
    pub fn validate_dimensions(&self, channels: usize) -> (r: Result<(), InferError>)
        ensures
            is_finding(r, self.dims_finding(channels)),
    {
        match check_dims(&self.snake0_alpha, list3(1, channels, 1).as_slice()) {
            Err(e) => {
                return Err(e);
            },
            Ok(_) => {},
        }
        match check_dims(&self.conv0_weight, list3(7, channels, channels).as_slice()) {
            Err(e) => {
                return Err(e);
            },
            Ok(_) => {},
        }
        match check_dims(&self.conv0_bias, list1(channels).as_slice()) {
            Err(e) => {
                return Err(e);
            },
            Ok(_) => {},
        }
        match check_dims(&self.snake1_alpha, list3(1, channels, 1).as_slice()) {
            Err(e) => {
                return Err(e);
            },
            Ok(_) => {},
        }
        match check_dims(&self.conv1_weight, list3(1, channels, channels).as_slice()) {
            Err(e) => {
                return Err(e);
            },
            Ok(_) => {},
        }
        check_dims(&self.conv1_bias, list1(channels).as_slice())
    }

    /// The weights as values.
    pub fn values<T: Copy, F: Fn(Op, T, T, T) -> T>(&self, calc: &Calc<T, F>) -> (r: CodecResidualUnitValues<T>)
        requires
            calc.works(),
        ensures
            r.come_from_residual_unit(*self, *calc),
    {
        CodecResidualUnitValues {
            snake0_alpha: to_values(self.snake0_alpha.values(), calc),
            conv0_weight: to_values(self.conv0_weight.values(), calc),
            conv0_bias: to_values(self.conv0_bias.values(), calc),
            snake1_alpha: to_values(self.snake1_alpha.values(), calc),
            conv1_weight: to_values(self.conv1_weight.values(), calc),
            conv1_bias: to_values(self.conv1_bias.values(), calc),
        }
    }
}

impl<T: Copy> CodecResidualUnitValues<T> {
    /// Whether the values are those of stored weights.
    pub open spec fn come_from_residual_unit<F: Fn(Op, T, T, T) -> T>(
        &self,
        w: CodecResidualUnitF16Weights,
        calc: Calc<T, F>,
    ) -> bool {
        &&& are_values(w.snake0_alpha@.values, calc, self.snake0_alpha@)
        &&& are_values(w.conv0_weight@.values, calc, self.conv0_weight@)
        &&& are_values(w.conv0_bias@.values, calc, self.conv0_bias@)
        &&& are_values(w.snake1_alpha@.values, calc, self.snake1_alpha@)
        &&& are_values(w.conv1_weight@.values, calc, self.conv1_weight@)
        &&& are_values(w.conv1_bias@.values, calc, self.conv1_bias@)
    }
}

/// The weights of a quantizer, as they are stored.
#[derive(Debug)]
pub struct CodecQuantizerF16Weights {
    pub index: usize,
    pub in_proj_weight: F16TensorView,
    pub in_proj_bias: F16TensorView,
    pub out_proj_weight: F16TensorView,
    pub out_proj_bias: F16TensorView,
    pub codebook_weight: F16TensorView,
}

/// The weights of a quantizer as values.
#[derive(Debug)]
pub struct CodecQuantizerValues<T> {
    pub in_proj_weight: Vec<T>,
    pub in_proj_bias: Vec<T>,
    pub out_proj_weight: Vec<T>,
    pub out_proj_bias: Vec<T>,
    pub codebook_weight: Vec<T>,
}

impl CodecQuantizerF16Weights {
    /// What is wrong with reading the tensors under a prefix, if anything.
    pub open spec fn read_finding(f: FileView, file: Seq<u8>, prefix: Seq<char>) -> Option<
        ErrorView,
    > {
        or_else(
            read_error(f, file, prefix + ".in_proj.weight"@),
            or_else(
                read_error(f, file, prefix + ".in_proj.bias"@),
                or_else(
                    read_error(f, file, prefix + ".out_proj.weight"@),
                    or_else(
                        read_error(f, file, prefix + ".out_proj.bias"@),
                        read_error(f, file, prefix + ".codebook.weight"@),
                    ),
                ),
            ),
        )
    }

    /// Whether the weights are those under a prefix.
    pub open spec fn are_under(&self, f: FileView, file: Seq<u8>, prefix: Seq<char>) -> bool {
        &&& is_tensor(self.in_proj_weight, f, file, prefix + ".in_proj.weight"@)
        &&& is_tensor(self.in_proj_bias, f, file, prefix + ".in_proj.bias"@)
        &&& is_tensor(self.out_proj_weight, f, file, prefix + ".out_proj.weight"@)
        &&& is_tensor(self.out_proj_bias, f, file, prefix + ".out_proj.bias"@)
        &&& is_tensor(self.codebook_weight, f, file, prefix + ".codebook.weight"@)
    }

    /// Whether the names are those under a prefix.
    pub open spec fn names_are(n: CodecQuantizerWeights, prefix: Seq<char>) -> bool {
        &&& n.in_proj_weight@ == prefix + ".in_proj.weight"@
        &&& n.in_proj_bias@ == prefix + ".in_proj.bias"@
        &&& n.out_proj_weight@ == prefix + ".out_proj.weight"@
        &&& n.out_proj_bias@ == prefix + ".out_proj.bias"@
        &&& n.codebook_weight@ == prefix + ".codebook.weight"@
    }

    /// The weights of the given names.
    pub(crate) fn from_names(
        gguf: &GgufFile,
        file: &[u8],
        names: &CodecQuantizerWeights,
        prefix: Ghost<Seq<char>>,
    ) -> (r: Result<CodecQuantizerF16Weights, InferError>)
        requires
            tensors_inside(gguf@),
            CodecQuantizerF16Weights::names_are(*names, prefix@),
        ensures
            match r {
                Ok(w) => {
                    &&& CodecQuantizerF16Weights::read_finding(gguf@, file@, prefix@) is None
                    &&& w.are_under(gguf@, file@, prefix@)
                    &&& w.index == names.index
                },
                Err(e) => CodecQuantizerF16Weights::read_finding(gguf@, file@, prefix@) == Some(e@),
            },
    {
        let in_proj_weight = match F16TensorView::from_gguf(gguf, file, names.in_proj_weight.as_str()) {
            Err(e) => {
                return Err(e);
            },
            Ok(t) => t,
        };
        let in_proj_bias = match F16TensorView::from_gguf(gguf, file, names.in_proj_bias.as_str()) {
            Err(e) => {
                return Err(e);
            },
            Ok(t) => t,
        };
        let out_proj_weight = match F16TensorView::from_gguf(gguf, file, names.out_proj_weight.as_str()) {
            Err(e) => {
                return Err(e);
            },
            Ok(t) => t,
        };
        let out_proj_bias = match F16TensorView::from_gguf(gguf, file, names.out_proj_bias.as_str()) {
            Err(e) => {
                return Err(e);
            },
            Ok(t) => t,
        };
        let codebook_weight = match F16TensorView::from_gguf(gguf, file, names.codebook_weight.as_str()) {
            Err(e) => {
                return Err(e);
            },
            Ok(t) => t,
        };
        Ok(
            CodecQuantizerF16Weights {
                index: names.index,
                in_proj_weight,
                in_proj_bias,
                out_proj_weight,
                out_proj_bias,
                codebook_weight,
            },
        )
    }

    /// The weights as values.
    pub fn values<T: Copy, F: Fn(Op, T, T, T) -> T>(&self, calc: &Calc<T, F>) -> (r: CodecQuantizerValues<T>)
        requires
            calc.works(),
        ensures
            r.come_from_quantizer(*self, *calc),
    {
        CodecQuantizerValues {
            in_proj_weight: to_values(self.in_proj_weight.values(), calc),
            in_proj_bias: to_values(self.in_proj_bias.values(), calc),
            out_proj_weight: to_values(self.out_proj_weight.values(), calc),
            out_proj_bias: to_values(self.out_proj_bias.values(), calc),
            codebook_weight: to_values(self.codebook_weight.values(), calc),
        }
    }
}

impl<T: Copy> CodecQuantizerValues<T> {
    /// Whether the values are those of stored weights.
    pub open spec fn come_from_quantizer<F: Fn(Op, T, T, T) -> T>(
        &self,
        w: CodecQuantizerF16Weights,
        calc: Calc<T, F>,
    ) -> bool {
        &&& are_values(w.in_proj_weight@.values, calc, self.in_proj_weight@)
        &&& are_values(w.in_proj_bias@.values, calc, self.in_proj_bias@)
        &&& are_values(w.out_proj_weight@.values, calc, self.out_proj_weight@)
        &&& are_values(w.out_proj_bias@.values, calc, self.out_proj_bias@)
        &&& are_values(w.codebook_weight@.values, calc, self.codebook_weight@)
    }
}

// ---------------------------------------------------------------------
// Quantizers
// ---------------------------------------------------------------------

/// What is said of a tensor where its dimensions are wrong.
pub open spec fn dims_note(t: WideView, expected: Seq<usize>) -> Seq<Seq<char>> {
    if t.dimensions == expected {
        Seq::empty()
    } else {
        seq![f16_dims_text(t, expected)]
    }
}

fn note_dims(t: &F16TensorView, expected: &[usize], notes: &mut Vec<String>)
    ensures
        strings(final(notes)@) == strings(old(notes)@) + dims_note(t@, expected@),
{
    let ghost before = notes@;
    if same_sizes(t.dimensions(), expected) {
        assert(strings(notes@) =~= strings(before) + Seq::empty());
    } else {
        let text = dims_text(t, expected);
        let ghost view = text@;
        notes.push(text);
        assert(strings(notes@) =~= strings(before) + seq![view]);
    }
}

/// How many codes a quantizer has.
pub open spec fn codes_of(semantic: bool) -> usize {
    if semantic {
        4096
    } else {
        1024
    }
}

impl CodecQuantizerF16Weights {
    /// All that is wrong with the dimensions.
    pub open spec fn dims_notes(&self, semantic: bool) -> Seq<Seq<char>> {
        dims_note(self.in_proj_weight@, d3(1, 1024, 8)) + dims_note(self.in_proj_bias@, d1(8))
            + dims_note(self.out_proj_weight@, d3(1, 8, 1024)) + dims_note(
            self.out_proj_bias@,
            d1(1024),
        ) + dims_note(self.codebook_weight@, d2(8, codes_of(semantic)))
    }

    /// The error that lists what is wrong with the dimensions, if anything is.
    pub open spec fn dims_finding(&self, semantic: bool) -> Option<ErrorView> {
        if self.dims_notes(semantic).len() == 0 {
            None
        } else {
            Some(
                message(
                    "codec F16 quantizer shape validation failed:\n"@ + joined(
                        self.dims_notes(semantic),
                        "\n"@,
                    ),
                ),
            )
        }
    }

    /// Checks the dimensions.
    pub fn validate_dimensions(&self, semantic: bool) -> (r: Result<(), InferError>)
        ensures
            is_finding(r, self.dims_finding(semantic)),
    {
        let codes: usize = if semantic {
            4096
        } else {
            1024
        };
        let mut notes: Vec<String> = Vec::new();
        assert(strings(notes@) =~= Seq::empty());
        note_dims(&self.in_proj_weight, list3(1, 1024, 8).as_slice(), &mut notes);
        note_dims(&self.in_proj_bias, list1(8).as_slice(), &mut notes);
        note_dims(&self.out_proj_weight, list3(1, 8, 1024).as_slice(), &mut notes);
        note_dims(&self.out_proj_bias, list1(1024).as_slice(), &mut notes);
        note_dims(&self.codebook_weight, list2(8, codes).as_slice(), &mut notes);
        assert(strings(notes@) =~= self.dims_notes(semantic));
        assert(strings(notes@).len() == notes@.len());
        if notes.len() == 0 {
            Ok(())
        } else {
            let body = join_strings(&notes, "\n");
            Err(
                InferError::Message(
                    String::from_str("codec F16 quantizer shape validation failed:\n").concat(
                        body.as_str(),
                    ),
                ),
            )
        }
    }

    /// Whether the weights are those of a quantizer of a file.
    pub open spec fn is_read(
        &self,
        f: FileView,
        file: Seq<u8>,
        prefix: Seq<char>,
        index: usize,
        semantic: bool,
    ) -> bool {
        &&& self.index == index
        &&& self.are_under(f, file, prefix)
        &&& self.dims_finding(semantic) is None
    }

    fn read(
        gguf: &GgufFile,
        file: &[u8],
        names: &CodecQuantizerWeights,
        semantic: bool,
        prefix: Ghost<Seq<char>>,
    ) -> (r: Result<CodecQuantizerF16Weights, InferError>)
        requires
            tensors_inside(gguf@),
            names.under(prefix@, names.index),
        ensures
            match r {
                Ok(w) => quantizer_error(gguf@, file@, prefix@, semantic) is None && w.is_read(
                    gguf@,
                    file@,
                    prefix@,
                    names.index,
                    semantic,
                ),
                Err(e) => quantizer_error(gguf@, file@, prefix@, semantic) == Some(e@),
            },
    {
        let weights = match CodecQuantizerF16Weights::from_names(gguf, file, names, prefix) {
            Err(e) => {
                return Err(e);
            },
            Ok(w) => w,
        };
        match weights.validate_dimensions(semantic) {
            Err(e) => Err(e),
            Ok(_) => Ok(weights),
        }
    }
}

/// What is wrong with a quantizer of a file, if anything.
pub open spec fn quantizer_error(
    f: FileView,
    file: Seq<u8>,
    prefix: Seq<char>,
    semantic: bool,
) -> Option<ErrorView> {
    let a = prefix + ".in_proj.weight"@;
    let b = prefix + ".in_proj.bias"@;
    let c = prefix + ".out_proj.weight"@;
    let d = prefix + ".out_proj.bias"@;
    let e = prefix + ".codebook.weight"@;
    let notes = dims_note(tensor_at(f, file, a), d3(1, 1024, 8)) + dims_note(
        tensor_at(f, file, b),
        d1(8),
    ) + dims_note(tensor_at(f, file, c), d3(1, 8, 1024)) + dims_note(
        tensor_at(f, file, d),
        d1(1024),
    ) + dims_note(tensor_at(f, file, e), d2(8, codes_of(semantic)));
    or_else(
        CodecQuantizerF16Weights::read_finding(f, file, prefix),
        if notes.len() == 0 {
            None
        } else {
            Some(
                message("codec F16 quantizer shape validation failed:\n"@ + joined(notes, "\n"@)),
            )
        },
    )
}

/// The weights of all quantizers, as they are stored.
#[derive(Debug)]
pub struct CodecF16Weights {
    pub semantic_quantizer: CodecQuantizerF16Weights,
    pub residual_quantizers: Vec<CodecQuantizerF16Weights>,
}

/// What is wrong with each of the other quantizers of a file, if anything.
pub open spec fn residual_errors(f: FileView, file: Seq<u8>) -> spec_fn(int) -> Option<ErrorView> {
    |i: int| quantizer_error(f, file, residual_prefix(i as usize), false)
}

/// What is wrong with the quantizers of a file, if anything.
pub open spec fn quantizers_error(f: FileView, file: Seq<u8>) -> Option<ErrorView> {
    or_else(
        quantizer_error(f, file, semantic_prefix(), true),
        first_of(residual_errors(f, file), 0, 9),
    )
}

impl CodecF16Weights {
    /// Whether the weights are those of the quantizers of a file.
    pub open spec fn are_of(&self, f: FileView, file: Seq<u8>) -> bool {
        &&& self.semantic_quantizer.is_read(f, file, semantic_prefix(), 0, true)
        &&& self.residual_quantizers@.len() == 9
        &&& forall|i: int|
            0 <= i < 9 ==> (#[trigger] self.residual_quantizers@[i]).is_read(
                f,
                file,
                residual_prefix(i as usize),
                i as usize,
                false,
            )
    }

    /// The weights of all quantizers of a model file.
    pub fn from_gguf(gguf: &GgufFile, file: &[u8]) -> (r: Result<CodecF16Weights, InferError>)
        requires
            tensors_inside(gguf@),
        ensures
            match r {
                Ok(w) => or_else(codec_error(gguf@), quantizers_error(gguf@, file@)) is None && w.are_of(
                    gguf@,
                    file@,
                ),
                Err(e) => or_else(codec_error(gguf@), quantizers_error(gguf@, file@)) == Some(e@),
            },
    {
        match CodecTensorRegistry::from_gguf(gguf) {
            Err(e) => Err(e),
            Ok(registry) => CodecF16Weights::from_gguf_registry(gguf, file, &registry),
        }
    }

    /// The weights of all quantizers of a model file with a known directory.
    pub fn from_gguf_registry(gguf: &GgufFile, file: &[u8], registry: &CodecTensorRegistry) -> (r:
        Result<CodecF16Weights, InferError>)
        requires
            tensors_inside(gguf@),
            registry.named(),
        ensures
            match r {
                Ok(w) => quantizers_error(gguf@, file@) is None && w.are_of(gguf@, file@),
                Err(e) => quantizers_error(gguf@, file@) == Some(e@),
            },
    {
        let semantic_quantizer = match CodecQuantizerF16Weights::read(
            gguf,
            file,
            registry.semantic_quantizer(),
            true,
            Ghost(semantic_prefix()),
        ) {
            Err(e) => {
                return Err(e);
            },
            Ok(w) => w,
        };
        let names = registry.residual_quantizers();
        let ghost f = residual_errors(gguf@, file@);
        let mut residual_quantizers: Vec<CodecQuantizerF16Weights> = Vec::new();
        let mut i: usize = 0;
        while i < 9
            invariant
                i <= 9,
                tensors_inside(gguf@),
                names@.len() == 9,
                forall|k: int|
                    0 <= k < 9 ==> (#[trigger] names@[k]).under(
                        residual_prefix(k as usize),
                        k as usize,
                    ),
                f == residual_errors(gguf@, file@),
                quantizers_error(gguf@, file@) == first_of(f, i as int, 9),
                residual_quantizers@.len() == i,
                forall|k: int|
                    0 <= k < i ==> (#[trigger] residual_quantizers@[k]).is_read(
                        gguf@,
                        file@,
                        residual_prefix(k as usize),
                        k as usize,
                        false,
                    ),
            decreases 9 - i,
        {
            let ghost here = f(i as int);
            assert(names@[i as int].under(residual_prefix(i), i));
            match CodecQuantizerF16Weights::read(
                gguf,
                file,
                &names[i],
                false,
                Ghost(residual_prefix(i)),
            ) {
                Err(e) => {
                    assert(here == Some(e@));
                    return Err(e);
                },
                Ok(w) => {
                    assert(here is None);
                    residual_quantizers.push(w);
                },
            }
            i = i + 1;
        }
        Ok(CodecF16Weights { semantic_quantizer, residual_quantizers })
    }
}

// ---------------------------------------------------------------------
// Transformers
// ---------------------------------------------------------------------

/// What is wrong with reading each layer of a module, if anything.
pub open spec fn layer_read_errors(
    f: FileView,
    file: Seq<u8>,
    module: Seq<char>,
) -> spec_fn(int) -> Option<ErrorView> {
    |i: int|
        CodecTransformerLayerF16Weights::read_finding(f, file, layer_prefix(module, i as usize))
}

/// What is wrong with the dimensions of each layer of a module, if anything.
pub open spec fn layer_dims_errors(
    f: FileView,
    file: Seq<u8>,
    module: Seq<char>,
) -> spec_fn(int) -> Option<ErrorView> {
    |i: int| CodecTransformerLayerF16Weights::dims_under(f, file, layer_prefix(module, i as usize))
}

/// Whether these are the first layers of a module.
pub open spec fn are_layers(
    layers: Seq<CodecTransformerLayerF16Weights>,
    f: FileView,
    file: Seq<u8>,
    module: Seq<char>,
) -> bool {
    forall|i: int|
        0 <= i < layers.len() ==> (#[trigger] layers[i]).are_under(
            f,
            file,
            layer_prefix(module, i as usize),
        )
}

pub(crate) fn read_layers(
    gguf: &GgufFile,
    file: &[u8],
    names: &Vec<CodecTransformerLayerWeights>,
    module: Ghost<Seq<char>>,
) -> (r: Result<Vec<CodecTransformerLayerF16Weights>, InferError>)
    requires
        tensors_inside(gguf@),
        forall|i: int| 0 <= i < names@.len() ==> (#[trigger] names@[i]).of(module@, i as usize),
    ensures
        match r {
            Ok(v) => first_of(
                layer_read_errors(gguf@, file@, module@),
                0,
                names@.len() as int,
            ) is None && v@.len() == names@.len() && are_layers(v@, gguf@, file@, module@),
            Err(e) => first_of(
                layer_read_errors(gguf@, file@, module@),
                0,
                names@.len() as int,
            ) == Some(e@),
        },
{
    let ghost f = layer_read_errors(gguf@, file@, module@);
    let n: usize = names.len();
    let mut out: Vec<CodecTransformerLayerF16Weights> = Vec::new();
    let mut i: usize = 0;
    while i < n
        invariant
            i <= n,
            n == names@.len(),
            tensors_inside(gguf@),
            forall|k: int|
                0 <= k < names@.len() ==> (#[trigger] names@[k]).of(module@, k as usize),
            f == layer_read_errors(gguf@, file@, module@),
            first_of(f, 0, n as int) == first_of(f, i as int, n as int),
            out@.len() == i,
            are_layers(out@, gguf@, file@, module@),
        decreases n - i,
    {
        let ghost here = f(i as int);
        assert(names@[i as int].of(module@, i));
        match CodecTransformerLayerF16Weights::from_names(
            gguf,
            file,
            &names[i],
            Ghost(layer_prefix(module@, i)),
        ) {
            Err(e) => {
                assert(here == Some(e@));
                return Err(e);
            },
            Ok(w) => {
                assert(here is None);
                out.push(w);
            },
        }
        i = i + 1;
    }
    Ok(out)
}

pub(crate) fn check_layers(
    layers: &Vec<CodecTransformerLayerF16Weights>,
    f: Ghost<FileView>,
    file: Ghost<Seq<u8>>,
    module: Ghost<Seq<char>>,
) -> (r: Result<(), InferError>)
    requires
        are_layers(layers@, f@, file@, module@),
    ensures
        is_finding(
            r,
            first_of(layer_dims_errors(f@, file@, module@), 0, layers@.len() as int),
        ),
{
    let ghost g = layer_dims_errors(f@, file@, module@);
    let n: usize = layers.len();
    let mut i: usize = 0;
    while i < n
        invariant
            i <= n,
            n == layers@.len(),
            are_layers(layers@, f@, file@, module@),
            g == layer_dims_errors(f@, file@, module@),
            first_of(g, 0, n as int) == first_of(g, i as int, n as int),
        decreases n - i,
    {
        let ghost here = g(i as int);
        assert(layers@[i as int].are_under(f@, file@, layer_prefix(module@, i)));
        assert(layers@[i as int].dims_finding() == here);
        match layers[i].validate_dimensions() {
            Err(e) => {
                assert(here == Some(e@));
                return Err(e);
            },
            Ok(_) => {
                assert(here is None);
            },
        }
        i = i + 1;
    }
    Ok(())
}

/// What is wrong with a codec transformer of a file, if anything.
pub open spec fn module_error(f: FileView, file: Seq<u8>, module: Seq<char>) -> Option<ErrorView> {
    or_else(
        first_of(layer_read_errors(f, file, module), 0, 8),
        or_else(
            read_error(f, file, module + ".norm.weight"@),
            or_else(
                f16_dims_error(tensor_at(f, file, module + ".norm.weight"@), d1(1024)),
                first_of(layer_dims_errors(f, file, module), 0, 8),
            ),
        ),
    )
}

/// Whether layers and a norm are those of a codec transformer of a file.
pub open spec fn is_module(
    layers: Seq<CodecTransformerLayerF16Weights>,
    norm: F16TensorView,
    f: FileView,
    file: Seq<u8>,
    module: Seq<char>,
) -> bool {
    &&& layers.len() == 8
    &&& are_layers(layers, f, file, module)
    &&& is_tensor(norm, f, file, module + ".norm.weight"@)
}

fn read_module(
    gguf: &GgufFile,
    file: &[u8],
    names: &Vec<CodecTransformerLayerWeights>,
    module: &str,
) -> (r: Result<
    (Vec<CodecTransformerLayerF16Weights>, F16TensorView),
    InferError,
>)
    requires
        tensors_inside(gguf@),
        names@.len() == 8,
        forall|i: int| 0 <= i < 8 ==> (#[trigger] names@[i]).of(module@, i as usize),
    ensures
        match r {
            Ok((layers, norm)) => module_error(gguf@, file@, module@) is None && is_module(
                layers@,
                norm,
                gguf@,
                file@,
                module@,
            ),
            Err(e) => module_error(gguf@, file@, module@) == Some(e@),
        },
{
    let layers = match read_layers(gguf, file, names, Ghost(module@)) {
        Err(e) => {
            return Err(e);
        },
        Ok(v) => v,
    };
    let norm = String::from_str(module).concat(".norm.weight");
    let norm_weight = match F16TensorView::from_gguf(gguf, file, norm.as_str()) {
        Err(e) => {
            return Err(e);
        },
        Ok(t) => t,
    };
    match check_dims(&norm_weight, list1(1024).as_slice()) {
        Err(e) => {
            return Err(e);
        },
        Ok(_) => {},
    }
    match check_layers(&layers, Ghost(gguf@), Ghost(file@), Ghost(module@)) {
        Err(e) => {
            return Err(e);
        },
        Ok(_) => {},
    }
    Ok((layers, norm_weight))
}

/// The weights of the transformer before the quantizers, as they are stored.
#[derive(Debug)]
pub struct CodecPreModuleF16Weights {
    pub layers: Vec<CodecTransformerLayerF16Weights>,
    pub norm_weight: F16TensorView,
}

impl CodecPreModuleF16Weights {
    /// Whether the weights are those of a file.
    pub open spec fn are_of(&self, f: FileView, file: Seq<u8>) -> bool {
        is_module(self.layers@, self.norm_weight, f, file, "quantizer.pre_module"@)
    }

    /// The weights in a model file.
    pub fn from_gguf(gguf: &GgufFile, file: &[u8]) -> (r: Result<CodecPreModuleF16Weights, InferError>)
        requires
            tensors_inside(gguf@),
        ensures
            match r {
                Ok(w) => or_else(
                    codec_error(gguf@),
                    module_error(gguf@, file@, "quantizer.pre_module"@),
                ) is None && w.are_of(gguf@, file@),
                Err(e) => or_else(
                    codec_error(gguf@),
                    module_error(gguf@, file@, "quantizer.pre_module"@),
                ) == Some(e@),
            },
    {
        match CodecTensorRegistry::from_gguf(gguf) {
            Err(e) => Err(e),
            Ok(registry) => CodecPreModuleF16Weights::from_gguf_registry(gguf, file, &registry),
        }
    }

    /// The weights in a model file with a known directory.
    pub fn from_gguf_registry(gguf: &GgufFile, file: &[u8], registry: &CodecTensorRegistry) -> (r:
        Result<CodecPreModuleF16Weights, InferError>)
        requires
            tensors_inside(gguf@),
            registry.named(),
        ensures
            match r {
                Ok(w) => module_error(gguf@, file@, "quantizer.pre_module"@) is None && w.are_of(
                    gguf@,
                    file@,
                ),
                Err(e) => module_error(gguf@, file@, "quantizer.pre_module"@) == Some(e@),
            },
    {
        match read_module(gguf, file, registry.pre_module_layers(), "quantizer.pre_module") {
            Err(e) => Err(e),
            Ok((layers, norm_weight)) => Ok(CodecPreModuleF16Weights { layers, norm_weight }),
        }
    }

    /// The weights as values.
    pub fn values<T: Copy, F: Fn(Op, T, T, T) -> T>(&self, calc: &Calc<T, F>) -> (r:
        CodecModuleValues<T>)
        requires
            calc.works(),
        ensures
            r.come_from(self.layers@, self.norm_weight, *calc),
    {
        CodecModuleValues {
            layers: layer_values(&self.layers, calc),
            norm: to_values(self.norm_weight.values(), calc),
        }
    }
}

/// The weights of the transformer after the quantizers, as they are stored.
#[derive(Debug)]
pub struct CodecPostModuleF16Weights {
    pub layers: Vec<CodecTransformerLayerF16Weights>,
    pub norm_weight: F16TensorView,
}

impl CodecPostModuleF16Weights {
    /// Whether the weights are those of a file.
    pub open spec fn are_of(&self, f: FileView, file: Seq<u8>) -> bool {
        is_module(self.layers@, self.norm_weight, f, file, "quantizer.post_module"@)
    }

    /// The weights in a model file.
    pub fn from_gguf(gguf: &GgufFile, file: &[u8]) -> (r: Result<CodecPostModuleF16Weights, InferError>)
        requires
            tensors_inside(gguf@),
        ensures
            match r {
                Ok(w) => or_else(
                    codec_error(gguf@),
                    module_error(gguf@, file@, "quantizer.post_module"@),
                ) is None && w.are_of(gguf@, file@),
                Err(e) => or_else(
                    codec_error(gguf@),
                    module_error(gguf@, file@, "quantizer.post_module"@),
                ) == Some(e@),
            },
    {
        match CodecTensorRegistry::from_gguf(gguf) {
            Err(e) => Err(e),
            Ok(registry) => CodecPostModuleF16Weights::from_gguf_registry(gguf, file, &registry),
        }
    }

    /// The weights in a model file with a known directory.
    pub fn from_gguf_registry(gguf: &GgufFile, file: &[u8], registry: &CodecTensorRegistry) -> (r:
        Result<CodecPostModuleF16Weights, InferError>)
        requires
            tensors_inside(gguf@),
            registry.named(),
        ensures
            match r {
                Ok(w) => module_error(gguf@, file@, "quantizer.post_module"@) is None && w.are_of(
                    gguf@,
                    file@,
                ),
                Err(e) => module_error(gguf@, file@, "quantizer.post_module"@) == Some(e@),
            },
    {
        match read_module(gguf, file, registry.post_module_layers(), "quantizer.post_module") {
            Err(e) => Err(e),
            Ok((layers, norm_weight)) => Ok(CodecPostModuleF16Weights { layers, norm_weight }),
        }
    }

    /// The weights as values.
    pub fn values<T: Copy, F: Fn(Op, T, T, T) -> T>(&self, calc: &Calc<T, F>) -> (r:
        CodecModuleValues<T>)
        requires
            calc.works(),
        ensures
            r.come_from(self.layers@, self.norm_weight, *calc),
    {
        CodecModuleValues {
            layers: layer_values(&self.layers, calc),
            norm: to_values(self.norm_weight.values(), calc),
        }
    }
}

/// The weights of a codec transformer as values.
#[derive(Debug)]
pub struct CodecModuleValues<T> {
    pub layers: Vec<CodecTransformerLayerValues<T>>,
    pub norm: Vec<T>,
}

/// Whether the values are those of layers.
pub open spec fn are_layer_values<T: Copy, F: Fn(Op, T, T, T) -> T>(
    values: Seq<CodecTransformerLayerValues<T>>,
    layers: Seq<CodecTransformerLayerF16Weights>,
    calc: Calc<T, F>,
) -> bool {
    &&& values.len() == layers.len()
    &&& forall|i: int|
        0 <= i < values.len() ==> (#[trigger] values[i]).come_from_transformer_layer(
            layers[i],
            calc,
        )
}

pub(crate) fn layer_values<T: Copy, F: Fn(Op, T, T, T) -> T>(
    layers: &Vec<CodecTransformerLayerF16Weights>,
    calc: &Calc<T, F>,
) -> (r: Vec<CodecTransformerLayerValues<T>>)
    requires
        calc.works(),
    ensures
        are_layer_values(r@, layers@, *calc),
{
    let mut out: Vec<CodecTransformerLayerValues<T>> = Vec::new();
    let mut i: usize = 0;
    while i < layers.len()
        invariant
            i <= layers@.len(),
            calc.works(),
            out@.len() == i,
            forall|k: int|
                0 <= k < i ==> (#[trigger] out@[k]).come_from_transformer_layer(layers@[k], *calc),
        decreases layers@.len() - i,
    {
        out.push(layers[i].values(calc));
        i = i + 1;
    }
    out
}

impl<T: Copy> CodecModuleValues<T> {
    /// Whether the values are those of stored weights.
    pub open spec fn come_from<F: Fn(Op, T, T, T) -> T>(
        &self,
        layers: Seq<CodecTransformerLayerF16Weights>,
        norm: F16TensorView,
        calc: Calc<T, F>,
    ) -> bool {
        &&& are_layer_values(self.layers@, layers, calc)
        &&& are_values(norm@.values, calc, self.norm@)
    }
}

// ---------------------------------------------------------------------
// Stages that change the frame rate
// ---------------------------------------------------------------------

/// The weights of the stages that lower the frame rate, as they are stored.
#[derive(Debug)]
pub struct CodecDownsampleF16Weights {
    pub stages: Vec<CodecDownsampleStageF16Weights>,
}

/// What is wrong with the stages that lower the frame rate, if anything.
pub open spec fn downsample_error(f: FileView, file: Seq<u8>) -> Option<ErrorView> {
    or_else(
        CodecDownsampleStageF16Weights::read_finding(f, file, downsample_prefix(0)),
        or_else(
            CodecDownsampleStageF16Weights::read_finding(f, file, downsample_prefix(1)),
            or_else(
                CodecDownsampleStageF16Weights::dims_under(f, file, downsample_prefix(0)),
                CodecDownsampleStageF16Weights::dims_under(f, file, downsample_prefix(1)),
            ),
        ),
    )
}

impl CodecDownsampleF16Weights {
    /// Whether the weights are those of the two stages of a file.
    pub open spec fn are_of(&self, f: FileView, file: Seq<u8>) -> bool {
        &&& self.stages@.len() == 2
        &&& self.stages@[0].are_under(f, file, downsample_prefix(0))
        &&& self.stages@[1].are_under(f, file, downsample_prefix(1))
    }

    /// The weights of the two stages of a model file.
    pub fn from_gguf(gguf: &GgufFile, file: &[u8]) -> (r: Result<CodecDownsampleF16Weights, InferError>)
        requires
            tensors_inside(gguf@),
        ensures
            match r {
                Ok(w) => or_else(codec_error(gguf@), downsample_error(gguf@, file@)) is None && w.are_of(
                    gguf@,
                    file@,
                ),
                Err(e) => or_else(codec_error(gguf@), downsample_error(gguf@, file@)) == Some(e@),
            },
    {
        match CodecTensorRegistry::from_gguf(gguf) {
            Err(e) => Err(e),
            Ok(registry) => CodecDownsampleF16Weights::from_gguf_registry(gguf, file, &registry),
        }
    }

    /// The weights of the two stages of a model file with a known directory.
    pub fn from_gguf_registry(gguf: &GgufFile, file: &[u8], registry: &CodecTensorRegistry) -> (r:
        Result<CodecDownsampleF16Weights, InferError>)
        requires
            tensors_inside(gguf@),
            registry.named(),
        ensures
            match r {
                Ok(w) => downsample_error(gguf@, file@) is None && w.are_of(gguf@, file@),
                Err(e) => downsample_error(gguf@, file@) == Some(e@),
            },
    {
        let names = registry.quantizer_downsample();
        let first = match CodecDownsampleStageF16Weights::from_names(
            gguf,
            file,
            &names.stages[0],
            Ghost(downsample_prefix(0)),
        ) {
            Err(e) => {
                return Err(e);
            },
            Ok(w) => w,
        };
        let second = match CodecDownsampleStageF16Weights::from_names(
            gguf,
            file,
            &names.stages[1],
            Ghost(downsample_prefix(1)),
        ) {
            Err(e) => {
                return Err(e);
            },
            Ok(w) => w,
        };
        match first.validate_dimensions() {
            Err(e) => {
                return Err(e);
            },
            Ok(_) => {},
        }
        match second.validate_dimensions() {
            Err(e) => {
                return Err(e);
            },
            Ok(_) => {},
        }
        let mut stages: Vec<CodecDownsampleStageF16Weights> = Vec::new();
        stages.push(first);
        stages.push(second);
        Ok(CodecDownsampleF16Weights { stages })
    }

    /// The weights as values.
    pub fn values<T: Copy, F: Fn(Op, T, T, T) -> T>(&self, calc: &Calc<T, F>) -> (r: Vec<
        CodecStageValues<T>,
    >)
        requires
            calc.works(),
        ensures
            r@.len() == self.stages@.len(),
            forall|i: int|
                0 <= i < r@.len() ==> (#[trigger] r@[i]).come_from_downsample_stage(
                    self.stages@[i],
                    *calc,
                ),
    {
        let mut out: Vec<CodecStageValues<T>> = Vec::new();
        let mut i: usize = 0;
        while i < self.stages.len()
            invariant
                i <= self.stages@.len(),
                calc.works(),
                out@.len() == i,
                forall|k: int|
                    0 <= k < i ==> (#[trigger] out@[k]).come_from_downsample_stage(
                        self.stages@[k],
                        *calc,
                    ),
            decreases self.stages@.len() - i,
        {
            out.push(self.stages[i].values(calc));
            i = i + 1;
        }
        out
    }
}

/// The weights of the stages that raise the frame rate, as they are stored.
#[derive(Debug)]
pub struct CodecUpsampleF16Weights {
    pub stages: Vec<CodecUpsampleStageF16Weights>,
}

/// What is wrong with the stages that raise the frame rate, if anything.
pub open spec fn upsample_error(f: FileView, file: Seq<u8>) -> Option<ErrorView> {
    or_else(
        CodecUpsampleStageF16Weights::read_finding(f, file, upsample_prefix(0)),
        or_else(
            CodecUpsampleStageF16Weights::read_finding(f, file, upsample_prefix(1)),
            or_else(
                CodecUpsampleStageF16Weights::dims_under(f, file, upsample_prefix(0)),
                CodecUpsampleStageF16Weights::dims_under(f, file, upsample_prefix(1)),
            ),
        ),
    )
}

impl CodecUpsampleF16Weights {
    /// Whether the weights are those of the two stages of a file.
    pub open spec fn are_of(&self, f: FileView, file: Seq<u8>) -> bool {
        &&& self.stages@.len() == 2
        &&& self.stages@[0].are_under(f, file, upsample_prefix(0))
        &&& self.stages@[1].are_under(f, file, upsample_prefix(1))
    }

    /// The weights of the two stages of a model file.
    pub fn from_gguf(gguf: &GgufFile, file: &[u8]) -> (r: Result<CodecUpsampleF16Weights, InferError>)
        requires
            tensors_inside(gguf@),
        ensures
            match r {
                Ok(w) => or_else(codec_error(gguf@), upsample_error(gguf@, file@)) is None && w.are_of(
                    gguf@,
                    file@,
                ),
                Err(e) => or_else(codec_error(gguf@), upsample_error(gguf@, file@)) == Some(e@),
            },
    {
        match CodecTensorRegistry::from_gguf(gguf) {
            Err(e) => Err(e),
            Ok(registry) => CodecUpsampleF16Weights::from_gguf_registry(gguf, file, &registry),
        }
    }

    /// The weights of the two stages of a model file with a known directory.
    pub fn from_gguf_registry(gguf: &GgufFile, file: &[u8], registry: &CodecTensorRegistry) -> (r:
        Result<CodecUpsampleF16Weights, InferError>)
        requires
            tensors_inside(gguf@),
            registry.named(),
        ensures
            match r {
                Ok(w) => upsample_error(gguf@, file@) is None && w.are_of(gguf@, file@),
                Err(e) => upsample_error(gguf@, file@) == Some(e@),
            },
    {
        let names = registry.quantizer_upsample();
        let first = match CodecUpsampleStageF16Weights::from_names(
            gguf,
            file,
            &names.stages[0],
            Ghost(upsample_prefix(0)),
        ) {
            Err(e) => {
                return Err(e);
            },
            Ok(w) => w,
        };
        let second = match CodecUpsampleStageF16Weights::from_names(
            gguf,
            file,
            &names.stages[1],
            Ghost(upsample_prefix(1)),
        ) {
            Err(e) => {
                return Err(e);
            },
            Ok(w) => w,
        };
        match first.validate_dimensions() {
            Err(e) => {
                return Err(e);
            },
            Ok(_) => {},
        }
        match second.validate_dimensions() {
            Err(e) => {
                return Err(e);
            },
            Ok(_) => {},
        }
        let mut stages: Vec<CodecUpsampleStageF16Weights> = Vec::new();
        stages.push(first);
        stages.push(second);
        Ok(CodecUpsampleF16Weights { stages })
    }

    /// The weights as values.
    pub fn values<T: Copy, F: Fn(Op, T, T, T) -> T>(&self, calc: &Calc<T, F>) -> (r: Vec<
        CodecStageValues<T>,
    >)
        requires
            calc.works(),
        ensures
            r@.len() == self.stages@.len(),
            forall|i: int|
                0 <= i < r@.len() ==> (#[trigger] r@[i]).come_from_upsample_stage(
                    self.stages@[i],
                    *calc,
                ),
    {
        let mut out: Vec<CodecStageValues<T>> = Vec::new();
        let mut i: usize = 0;
        while i < self.stages.len()
            invariant
                i <= self.stages@.len(),
                calc.works(),
                out@.len() == i,
                forall|k: int|
                    0 <= k < i ==> (#[trigger] out@[k]).come_from_upsample_stage(
                        self.stages@[k],
                        *calc,
                    ),
            decreases self.stages@.len() - i,
        {
            out.push(self.stages[i].values(calc));
            i = i + 1;
        }
        out
    }
}

} // verus!
