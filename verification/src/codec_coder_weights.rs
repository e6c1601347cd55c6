//! Weights of the codec's encoder and decoder, read from a model file.
use crate::codec_names::{
    decoder_prefix, encoder_prefix, CodecDecoderBlockWeights, CodecDecoderWeights,
    CodecEncoderBlockWeights, CodecEncoderWeights,
};
use crate::codec_registry::{block_channels, block_kernel, channels_after, kernel_of};
use crate::codec_weights::{
    are_layer_values, are_layers, check_dims, check_layers, d1, d3, f16_dims_error,
    layer_dims_errors, layer_read_errors, layer_values, list1, list3, read_layers, tensor_at,
    CodecResidualUnitF16Weights, CodecResidualUnitValues, CodecTransformerLayerF16Weights,
    CodecTransformerLayerValues,
};
use crate::error::{ErrorView, InferError};
use crate::gguf::{tensors_inside, FileView, GgufFile};
use crate::numeric::{Calc, Op};
use crate::sizes::or_else;
use crate::slow_sequence::first_of;
use crate::slow_weights::{are_values, is_tensor, read_error, to_values};
use crate::tensor::F16TensorView;
use vstd::prelude::*;
use vstd::string::*;

verus! {

// ---------------------------------------------------------------------
// The encoder
// ---------------------------------------------------------------------

/// The weights of an encoder block, as they are stored.
#[derive(Debug)]
pub struct CodecEncoderBlockF16Weights {
    pub index: usize,
    pub residual_1: CodecResidualUnitF16Weights,
    pub residual_2: CodecResidualUnitF16Weights,
    pub residual_3: CodecResidualUnitF16Weights,
    pub snake_alpha: F16TensorView,
    pub down_conv_weight: F16TensorView,
    pub down_conv_bias: F16TensorView,
    pub transformer_layers: Vec<CodecTransformerLayerF16Weights>,
    pub transformer_norm_weight: Option<F16TensorView>,
}

/// The weights of an encoder block as values.
#[derive(Debug)]
pub struct CodecEncoderBlockValues<T> {
    pub index: usize,
    pub residual_1: CodecResidualUnitValues<T>,
    pub residual_2: CodecResidualUnitValues<T>,
    pub residual_3: CodecResidualUnitValues<T>,
    pub snake_alpha: Vec<T>,
    pub down_conv_weight: Vec<T>,
    pub down_conv_bias: Vec<T>,
    pub transformer_layers: Vec<CodecTransformerLayerValues<T>>,
    pub transformer_norm_weight: Option<Vec<T>>,
}

/// What is wrong with reading an encoder block, if anything.
pub open spec fn block_read_error(f: FileView, file: Seq<u8>, index: usize) -> Option<ErrorView> {
    let p = encoder_prefix(index);
    or_else(
        CodecResidualUnitF16Weights::read_finding(f, file, p + ".0"@),
        or_else(
            CodecResidualUnitF16Weights::read_finding(f, file, p + ".1"@),
            or_else(
                CodecResidualUnitF16Weights::read_finding(f, file, p + ".2"@),
                or_else(
                    read_error(f, file, p + ".3.alpha"@),
                    or_else(
                        read_error(f, file, p + ".4.conv.weight"@),
                        or_else(
                            read_error(f, file, p + ".4.conv.bias"@),
                            if index == 4 {
                                    or_else(
                                        first_of(layer_read_errors(f, file, p + ".5"@), 0, 4),
                                        read_error(f, file, p + ".5.norm.weight"@),
                                    )
                                } else {
                                    None
                                },
                        ),
                    ),
                ),
            ),
        ),
    )
}

/// What is wrong with the dimensions of an encoder block, if anything.
pub open spec fn block_dims_error(f: FileView, file: Seq<u8>, index: usize) -> Option<ErrorView> {
    let p = encoder_prefix(index);
    let before = channels_after((index - 1) as usize) as usize;
    let after = channels_after(index) as usize;
    or_else(
        CodecResidualUnitF16Weights::dims_under(f, file, p + ".0"@, before),
        or_else(
            CodecResidualUnitF16Weights::dims_under(f, file, p + ".1"@, before),
            or_else(
                CodecResidualUnitF16Weights::dims_under(f, file, p + ".2"@, before),
                or_else(
                    f16_dims_error(tensor_at(f, file, p + ".3.alpha"@), d3(1, before, 1)),
                    or_else(
                        f16_dims_error(tensor_at(f, file, p + ".4.conv.weight"@), d3(kernel_of(index) as usize, before, after)),
                        or_else(
                            f16_dims_error(tensor_at(f, file, p + ".4.conv.bias"@), d1(after)),
                            if index == 4 {
                                    or_else(
                                        first_of(layer_dims_errors(f, file, p + ".5"@), 0, 4),
                                        f16_dims_error(
                                            tensor_at(f, file, p + ".5.norm.weight"@),
                                            d1(1024),
                                        ),
                                    )
                                } else {
                                    None
                                },
                        ),
                    ),
                ),
            ),
        ),
    )
}

impl CodecEncoderBlockF16Weights {
    /// Whether the weights are those of an encoder block of a file.
    pub open spec fn are_of(&self, f: FileView, file: Seq<u8>, index: usize) -> bool {
        let p = encoder_prefix(index);
        &&& self.index == index
        &&& self.residual_1.are_under(f, file, p + ".0"@)
        &&& self.residual_2.are_under(f, file, p + ".1"@)
        &&& self.residual_3.are_under(f, file, p + ".2"@)
        &&& is_tensor(self.snake_alpha, f, file, p + ".3.alpha"@)
        &&& is_tensor(self.down_conv_weight, f, file, p + ".4.conv.weight"@)
        &&& is_tensor(self.down_conv_bias, f, file, p + ".4.conv.bias"@)
        &&& if index == 4 {
            &&& self.transformer_layers@.len() == 4
            &&& are_layers(self.transformer_layers@, f, file, p + ".5"@)
            &&& self.transformer_norm_weight matches Some(t) && is_tensor(
                t,
                f,
                file,
                p + ".5.norm.weight"@,
            )
        } else {
            self.transformer_layers@.len() == 0 && self.transformer_norm_weight is None
        }
    }

    fn from_names(gguf: &GgufFile, file: &[u8], names: &CodecEncoderBlockWeights) -> (r: Result<
        CodecEncoderBlockF16Weights,
        InferError,
    >)
        requires
            tensors_inside(gguf@),
            names.of(names.index),
        ensures
            match r {
                Ok(w) => block_read_error(gguf@, file@, names.index) is None && w.are_of(
                    gguf@,
                    file@,
                    names.index,
                ),
                Err(e) => block_read_error(gguf@, file@, names.index) == Some(e@),
            },
    {
        let ghost p = encoder_prefix(names.index);
        let residual_1 = match CodecResidualUnitF16Weights::from_names(
            gguf,
            file,
            &names.residual_1,
            Ghost(p + ".0"@),
        ) {
            Err(e) => {
                return Err(e);
            },
            Ok(w) => w,
        };
        let residual_2 = match CodecResidualUnitF16Weights::from_names(
            gguf,
            file,
            &names.residual_2,
            Ghost(p + ".1"@),
        ) {
            Err(e) => {
                return Err(e);
            },
            Ok(w) => w,
        };
        let residual_3 = match CodecResidualUnitF16Weights::from_names(
            gguf,
            file,
            &names.residual_3,
            Ghost(p + ".2"@),
        ) {
            Err(e) => {
                return Err(e);
            },
            Ok(w) => w,
        };
        let snake_alpha = match F16TensorView::from_gguf(gguf, file, names.snake_alpha.as_str()) {
            Err(e) => {
                return Err(e);
            },
            Ok(t) => t,
        };
        let down_conv_weight = match F16TensorView::from_gguf(gguf, file, names.down_conv_weight.as_str()) {
            Err(e) => {
                return Err(e);
            },
            Ok(t) => t,
        };
        let down_conv_bias = match F16TensorView::from_gguf(gguf, file, names.down_conv_bias.as_str()) {
            Err(e) => {
                return Err(e);
            },
            Ok(t) => t,
        };
        let transformer_layers = match read_layers(
            gguf,
            file,
            &names.transformer_layers,
            Ghost(p + ".5"@),
        ) {
            Err(e) => {
                return Err(e);
            },
            Ok(v) => v,
        };
        let transformer_norm_weight = match &names.transformer_norm_weight {
            None => None,
            Some(name) => match F16TensorView::from_gguf(gguf, file, name.as_str()) {
                Err(e) => {
                    return Err(e);
                },
                Ok(t) => Some(t),
            },
        };
        Ok(
            CodecEncoderBlockF16Weights {
                index: names.index,
                residual_1,
                residual_2,
                residual_3,
                snake_alpha,
                down_conv_weight,
                down_conv_bias,
                transformer_layers,
                transformer_norm_weight,
            },
        )
    }

    fn check(&self, index: usize, f: Ghost<FileView>, file: Ghost<Seq<u8>>) -> (r: Result<
        (),
        InferError,
    >)
        requires
            1 <= index <= 4,
            self.are_of(f@, file@, index),
        ensures
            crate::sizes::is_finding(r, block_dims_error(f@, file@, index)),
    {
        let ghost p = encoder_prefix(index);
        let before: usize = block_channels(index - 1) as usize;
        let after: usize = block_channels(index) as usize;
        let kernel: usize = block_kernel(index) as usize;
        match self.residual_1.validate_dimensions(before) {
            Err(e) => {
                return Err(e);
            },
            Ok(_) => {},
        }
        match self.residual_2.validate_dimensions(before) {
            Err(e) => {
                return Err(e);
            },
            Ok(_) => {},
        }
        match self.residual_3.validate_dimensions(before) {
            Err(e) => {
                return Err(e);
            },
            Ok(_) => {},
        }
        match check_dims(&self.snake_alpha, list3(1, before, 1).as_slice()) {
            Err(e) => {
                return Err(e);
            },
            Ok(_) => {},
        }
        match check_dims(&self.down_conv_weight, list3(kernel, before, after).as_slice()) {
            Err(e) => {
                return Err(e);
            },
            Ok(_) => {},
        }
        match check_dims(&self.down_conv_bias, list1(after).as_slice()) {
            Err(e) => {
                return Err(e);
            },
            Ok(_) => {},
        }
        match &self.transformer_norm_weight {
            None => Ok(()),
            Some(norm) => {
                match check_layers(&self.transformer_layers, f, file, Ghost(p + ".5"@)) {
                    Err(e) => {
                        return Err(e);
                    },
                    Ok(_) => {},
                }
                check_dims(norm, list1(1024).as_slice())
            },
        }
    }

    /// The weights as values.
    pub fn values<T: Copy, F: Fn(Op, T, T, T) -> T>(&self, calc: &Calc<T, F>) -> (r:
        CodecEncoderBlockValues<T>)
        requires
            calc.works(),
        ensures
            r.come_from(*self, *calc),
    {
        CodecEncoderBlockValues {
            index: self.index,
            residual_1: self.residual_1.values(calc),
            residual_2: self.residual_2.values(calc),
            residual_3: self.residual_3.values(calc),
            snake_alpha: to_values(self.snake_alpha.values(), calc),
            down_conv_weight: to_values(self.down_conv_weight.values(), calc),
            down_conv_bias: to_values(self.down_conv_bias.values(), calc),
            transformer_layers: layer_values(&self.transformer_layers, calc),
            transformer_norm_weight: match &self.transformer_norm_weight {
                None => None,
                Some(t) => Some(to_values(t.values(), calc)),
            },
        }
    }
}

impl<T: Copy> CodecEncoderBlockValues<T> {
    /// Whether the values are those of stored weights.
    pub open spec fn come_from<F: Fn(Op, T, T, T) -> T>(
        &self,
        w: CodecEncoderBlockF16Weights,
        calc: Calc<T, F>,
    ) -> bool {
        &&& self.index == w.index
        &&& self.residual_1.come_from_residual_unit(w.residual_1, calc)
        &&& self.residual_2.come_from_residual_unit(w.residual_2, calc)
        &&& self.residual_3.come_from_residual_unit(w.residual_3, calc)
        &&& are_values(w.snake_alpha@.values, calc, self.snake_alpha@)
        &&& are_values(w.down_conv_weight@.values, calc, self.down_conv_weight@)
        &&& are_values(w.down_conv_bias@.values, calc, self.down_conv_bias@)
        &&& are_layer_values(self.transformer_layers@, w.transformer_layers@, calc)
        &&& match w.transformer_norm_weight {
            None => self.transformer_norm_weight is None,
            Some(t) => self.transformer_norm_weight matches Some(v) && are_values(
                t@.values,
                calc,
                v@,
            ),
        }
    }
}

/// What is wrong with the dimensions of each encoder block, if anything.
pub open spec fn encoder_block_dims(f: FileView, file: Seq<u8>) -> spec_fn(int) -> Option<
    ErrorView,
> {
    |i: int| block_dims_error(f, file, (i + 1) as usize)
}

/// What is wrong with the dimensions of what follows the encoder blocks, if anything.
pub open spec fn encoder_tail_error(f: FileView, file: Seq<u8>) -> Option<ErrorView> {
    or_else(
        f16_dims_error(tensor_at(f, file, "encoder.block.5.alpha"@), d3(1, 1024, 1)),
        or_else(
            f16_dims_error(tensor_at(f, file, "encoder.block.6.conv.weight"@), d3(3, 1024, 1024)),
            f16_dims_error(tensor_at(f, file, "encoder.block.6.conv.bias"@), d1(1024)),
        ),
    )
}

/// The weights of the encoder, as they are stored.
#[derive(Debug)]
pub struct CodecEncoderF16Weights {
    pub entry_conv_weight: F16TensorView,
    pub entry_conv_bias: F16TensorView,
    pub blocks: Vec<CodecEncoderBlockF16Weights>,
    pub tail_snake_alpha: F16TensorView,
    pub output_conv_weight: F16TensorView,
    pub output_conv_bias: F16TensorView,
}

/// The weights of the encoder as values.
#[derive(Debug)]
pub struct CodecEncoderValues<T> {
    pub entry_conv_weight: Vec<T>,
    pub entry_conv_bias: Vec<T>,
    pub blocks: Vec<CodecEncoderBlockValues<T>>,
    pub tail_snake_alpha: Vec<T>,
    pub output_conv_weight: Vec<T>,
    pub output_conv_bias: Vec<T>,
}

/// What is wrong with reading each encoder block, if anything.
pub open spec fn encoder_block_reads(f: FileView, file: Seq<u8>) -> spec_fn(int) -> Option<
    ErrorView,
> {
    |i: int| block_read_error(f, file, (i + 1) as usize)
}

/// What is wrong with the encoder of a file, if anything.
pub open spec fn encoder_error(f: FileView, file: Seq<u8>) -> Option<ErrorView> {
    or_else(
        read_error(f, file, "encoder.block.0.conv.weight"@),
        or_else(
            read_error(f, file, "encoder.block.0.conv.bias"@),
            or_else(
                first_of(encoder_block_reads(f, file), 0, 4),
                or_else(
                    read_error(f, file, "encoder.block.5.alpha"@),
                    or_else(
                        read_error(f, file, "encoder.block.6.conv.weight"@),
                        or_else(
                            read_error(f, file, "encoder.block.6.conv.bias"@),
                            or_else(
                                f16_dims_error(tensor_at(f, file, "encoder.block.0.conv.weight"@), d3(7, 1, 64)),
                                or_else(
                                    f16_dims_error(tensor_at(f, file, "encoder.block.0.conv.bias"@), d1(64)),
                                    or_else(
                                        first_of(encoder_block_dims(f, file), 0, 4),
                                        or_else(
                                            f16_dims_error(tensor_at(f, file, "encoder.block.5.alpha"@), d3(1, 1024, 1)),
                                            or_else(
                                                f16_dims_error(tensor_at(f, file, "encoder.block.6.conv.weight"@), d3(3, 1024, 1024)),
                                                f16_dims_error(tensor_at(f, file, "encoder.block.6.conv.bias"@), d1(1024)),
                                            ),
                                        ),
                                    ),
                                ),
                            ),
                        ),
                    ),
                ),
            ),
        ),
    )
}

impl CodecEncoderF16Weights {
    /// Whether the weights are those of the encoder of a file.
    pub open spec fn are_of(&self, f: FileView, file: Seq<u8>) -> bool {
        &&& is_tensor(self.entry_conv_weight, f, file, "encoder.block.0.conv.weight"@)
        &&& is_tensor(self.entry_conv_bias, f, file, "encoder.block.0.conv.bias"@)
        &&& self.blocks@.len() == 4
        &&& forall|i: int|
            0 <= i < 4 ==> (#[trigger] self.blocks@[i]).are_of(f, file, (i + 1) as usize)
        &&& is_tensor(self.tail_snake_alpha, f, file, "encoder.block.5.alpha"@)
        &&& is_tensor(self.output_conv_weight, f, file, "encoder.block.6.conv.weight"@)
        &&& is_tensor(self.output_conv_bias, f, file, "encoder.block.6.conv.bias"@)
    }

    /// The weights of the encoder of a model file.
    pub fn from_gguf(gguf: &GgufFile, file: &[u8]) -> (r: Result<CodecEncoderF16Weights, InferError>)
        requires
            tensors_inside(gguf@),
        ensures
            match r {
                Ok(w) => encoder_error(gguf@, file@) is None && w.are_of(gguf@, file@),
                Err(e) => encoder_error(gguf@, file@) == Some(e@),
            },
    {
        let names = CodecEncoderWeights::new();
        CodecEncoderF16Weights::from_gguf_names(gguf, file, &names)
    }

    /// The weights of the encoder under the given names.
    pub fn from_gguf_names(gguf: &GgufFile, file: &[u8], names: &CodecEncoderWeights) -> (r: Result<
        CodecEncoderF16Weights,
        InferError,
    >)
        requires
            tensors_inside(gguf@),
            names.whole(),
        ensures
            match r {
                Ok(w) => encoder_error(gguf@, file@) is None && w.are_of(gguf@, file@),
                Err(e) => encoder_error(gguf@, file@) == Some(e@),
            },
    {
        let entry_conv_weight = match F16TensorView::from_gguf(gguf, file, names.entry_conv_weight.as_str()) {
            Err(e) => {
                return Err(e);
            },
            Ok(t) => t,
        };
        let entry_conv_bias = match F16TensorView::from_gguf(gguf, file, names.entry_conv_bias.as_str()) {
            Err(e) => {
                return Err(e);
            },
            Ok(t) => t,
        };
        let ghost g = encoder_block_reads(gguf@, file@);
        let mut blocks: Vec<CodecEncoderBlockF16Weights> = Vec::new();
        let mut i: usize = 0;
        while i < 4
            invariant
                i <= 4,
                tensors_inside(gguf@),
                names.whole(),
                g == encoder_block_reads(gguf@, file@),
                first_of(g, 0, 4) == first_of(g, i as int, 4),
                read_error(gguf@, file@, "encoder.block.0.conv.weight"@) is None,
                read_error(gguf@, file@, "encoder.block.0.conv.bias"@) is None,
                blocks@.len() == i,
                forall|k: int|
                    0 <= k < i ==> (#[trigger] blocks@[k]).are_of(
                        gguf@,
                        file@,
                        (k + 1) as usize,
                    ),
            decreases 4 - i,
        {
            let ghost here = g(i as int);
            assert(names.blocks@[i as int].of((i + 1) as usize));
            match CodecEncoderBlockF16Weights::from_names(gguf, file, &names.blocks[i]) {
                Err(e) => {
                    assert(here == Some(e@));
                    return Err(e);
                },
                Ok(w) => {
                    assert(here is None);
                    blocks.push(w);
                },
            }
            i = i + 1;
        }
        let tail_snake_alpha = match F16TensorView::from_gguf(gguf, file, names.tail_snake_alpha.as_str()) {
            Err(e) => {
                return Err(e);
            },
            Ok(t) => t,
        };
        let output_conv_weight = match F16TensorView::from_gguf(gguf, file, names.output_conv_weight.as_str()) {
            Err(e) => {
                return Err(e);
            },
            Ok(t) => t,
        };
        let output_conv_bias = match F16TensorView::from_gguf(gguf, file, names.output_conv_bias.as_str()) {
            Err(e) => {
                return Err(e);
            },
            Ok(t) => t,
        };
        match check_dims(&entry_conv_weight, list3(7, 1, 64).as_slice()) {
            Err(e) => {
                return Err(e);
            },
            Ok(_) => {},
        }
        match check_dims(&entry_conv_bias, list1(64).as_slice()) {
            Err(e) => {
                return Err(e);
            },
            Ok(_) => {},
        }
        let ghost h = encoder_block_dims(gguf@, file@);
        let mut k: usize = 0;
        while k < 4
            invariant
                k <= 4,
                blocks@.len() == 4,
                h == encoder_block_dims(gguf@, file@),
                first_of(h, 0, 4) == first_of(h, k as int, 4),
                forall|j: int|
                    0 <= j < 4 ==> (#[trigger] blocks@[j]).are_of(
                        gguf@,
                        file@,
                        (j + 1) as usize,
                    ),
                encoder_error(gguf@, file@) == or_else(
                    first_of(h, 0, 4),
                    encoder_tail_error(gguf@, file@),
                ),
            decreases 4 - k,
        {
            let ghost here = h(k as int);
            assert(blocks@[k as int].are_of(gguf@, file@, (k + 1) as usize));
            match blocks[k].check(k + 1, Ghost(gguf@), Ghost(file@)) {
                Err(e) => {
                    assert(here == Some(e@));
                    return Err(e);
                },
                Ok(_) => {
                    assert(here is None);
                },
            }
            k = k + 1;
        }
        match check_dims(&tail_snake_alpha, list3(1, 1024, 1).as_slice()) {
            Err(e) => {
                return Err(e);
            },
            Ok(_) => {},
        }
        match check_dims(&output_conv_weight, list3(3, 1024, 1024).as_slice()) {
            Err(e) => {
                return Err(e);
            },
            Ok(_) => {},
        }
        match check_dims(&output_conv_bias, list1(1024).as_slice()) {
            Err(e) => {
                return Err(e);
            },
            Ok(_) => {},
        }
        Ok(
            CodecEncoderF16Weights {
                entry_conv_weight,
                entry_conv_bias,
                blocks,
                tail_snake_alpha,
                output_conv_weight,
                output_conv_bias,
            },
        )
    }

    /// The weights as values.
    pub fn values<T: Copy, F: Fn(Op, T, T, T) -> T>(&self, calc: &Calc<T, F>) -> (r:
        CodecEncoderValues<T>)
        requires
            calc.works(),
        ensures
            r.come_from(*self, *calc),
    {
        let mut blocks: Vec<CodecEncoderBlockValues<T>> = Vec::new();
        let mut i: usize = 0;
        while i < self.blocks.len()
            invariant
                i <= self.blocks@.len(),
                calc.works(),
                blocks@.len() == i,
                forall|k: int|
                    0 <= k < i ==> (#[trigger] blocks@[k]).come_from(self.blocks@[k], *calc),
            decreases self.blocks@.len() - i,
        {
            blocks.push(self.blocks[i].values(calc));
            i = i + 1;
        }
        CodecEncoderValues {
            entry_conv_weight: to_values(self.entry_conv_weight.values(), calc),
            entry_conv_bias: to_values(self.entry_conv_bias.values(), calc),
            blocks,
            tail_snake_alpha: to_values(self.tail_snake_alpha.values(), calc),
            output_conv_weight: to_values(self.output_conv_weight.values(), calc),
            output_conv_bias: to_values(self.output_conv_bias.values(), calc),
        }
    }
}

impl<T: Copy> CodecEncoderValues<T> {
    /// Whether the values are those of stored weights.
    pub open spec fn come_from<F: Fn(Op, T, T, T) -> T>(
        &self,
        w: CodecEncoderF16Weights,
        calc: Calc<T, F>,
    ) -> bool {
        &&& are_values(w.entry_conv_weight@.values, calc, self.entry_conv_weight@)
        &&& are_values(w.entry_conv_bias@.values, calc, self.entry_conv_bias@)
        &&& self.blocks@.len() == w.blocks@.len()
        &&& forall|i: int|
            0 <= i < w.blocks@.len() ==> (#[trigger] self.blocks@[i]).come_from(w.blocks@[i], calc)
        &&& are_values(w.tail_snake_alpha@.values, calc, self.tail_snake_alpha@)
        &&& are_values(w.output_conv_weight@.values, calc, self.output_conv_weight@)
        &&& are_values(w.output_conv_bias@.values, calc, self.output_conv_bias@)
    }
}

// ---------------------------------------------------------------------
// The decoder
// ---------------------------------------------------------------------

/// The weights of a decoder block, as they are stored.
#[derive(Debug)]
pub struct CodecDecoderBlockF16Weights {
    pub index: usize,
    pub snake_alpha: F16TensorView,
    pub conv_transpose_weight: F16TensorView,
    pub conv_transpose_bias: F16TensorView,
    pub residual_1: CodecResidualUnitF16Weights,
    pub residual_2: CodecResidualUnitF16Weights,
    pub residual_3: CodecResidualUnitF16Weights,
}

/// The weights of a decoder block as values.
#[derive(Debug)]
pub struct CodecDecoderBlockValues<T> {
    pub index: usize,
    pub snake_alpha: Vec<T>,
    pub conv_transpose_weight: Vec<T>,
    pub conv_transpose_bias: Vec<T>,
    pub residual_1: CodecResidualUnitValues<T>,
    pub residual_2: CodecResidualUnitValues<T>,
    pub residual_3: CodecResidualUnitValues<T>,
}

/// What is wrong with reading a decoder block, if anything.
pub open spec fn decoder_block_read_error(f: FileView, file: Seq<u8>, index: usize) -> Option<
    ErrorView,
> {
    let p = decoder_prefix(index);
    or_else(
        read_error(f, file, p + ".block.0.alpha"@),
        or_else(
            read_error(f, file, p + ".block.1.conv.weight"@),
            or_else(
                read_error(f, file, p + ".block.1.conv.bias"@),
                or_else(
                    CodecResidualUnitF16Weights::read_finding(f, file, p + ".block.2"@),
                    or_else(
                        CodecResidualUnitF16Weights::read_finding(f, file, p + ".block.3"@),
                        CodecResidualUnitF16Weights::read_finding(f, file, p + ".block.4"@),
                    ),
                ),
            ),
        ),
    )
}

impl CodecDecoderBlockF16Weights {
    /// Whether the weights are those of a decoder block of a file.
    pub open spec fn are_of(&self, f: FileView, file: Seq<u8>, index: usize) -> bool {
        let p = decoder_prefix(index);
        &&& self.index == index
        &&& is_tensor(self.snake_alpha, f, file, p + ".block.0.alpha"@)
        &&& is_tensor(self.conv_transpose_weight, f, file, p + ".block.1.conv.weight"@)
        &&& is_tensor(self.conv_transpose_bias, f, file, p + ".block.1.conv.bias"@)
        &&& self.residual_1.are_under(f, file, p + ".block.2"@)
        &&& self.residual_2.are_under(f, file, p + ".block.3"@)
        &&& self.residual_3.are_under(f, file, p + ".block.4"@)
    }

    fn from_names(gguf: &GgufFile, file: &[u8], names: &CodecDecoderBlockWeights) -> (r: Result<
        CodecDecoderBlockF16Weights,
        InferError,
    >)
        requires
            tensors_inside(gguf@),
            names.of(names.index),
        ensures
            match r {
                Ok(w) => decoder_block_read_error(gguf@, file@, names.index) is None && w.are_of(
                    gguf@,
                    file@,
                    names.index,
                ),
                Err(e) => decoder_block_read_error(gguf@, file@, names.index) == Some(e@),
            },
    {
        let ghost p = decoder_prefix(names.index);
        let snake_alpha = match F16TensorView::from_gguf(gguf, file, names.snake_alpha.as_str()) {
            Err(e) => {
                return Err(e);
            },
            Ok(t) => t,
        };
        let conv_transpose_weight = match F16TensorView::from_gguf(gguf, file, names.conv_transpose_weight.as_str()) {
            Err(e) => {
                return Err(e);
            },
            Ok(t) => t,
        };
        let conv_transpose_bias = match F16TensorView::from_gguf(gguf, file, names.conv_transpose_bias.as_str()) {
            Err(e) => {
                return Err(e);
            },
            Ok(t) => t,
        };
        let residual_1 = match CodecResidualUnitF16Weights::from_names(
            gguf,
            file,
            &names.residual_1,
            Ghost(p + ".block.2"@),
        ) {
            Err(e) => {
                return Err(e);
            },
            Ok(w) => w,
        };
        let residual_2 = match CodecResidualUnitF16Weights::from_names(
            gguf,
            file,
            &names.residual_2,
            Ghost(p + ".block.3"@),
        ) {
            Err(e) => {
                return Err(e);
            },
            Ok(w) => w,
        };
        let residual_3 = match CodecResidualUnitF16Weights::from_names(
            gguf,
            file,
            &names.residual_3,
            Ghost(p + ".block.4"@),
        ) {
            Err(e) => {
                return Err(e);
            },
            Ok(w) => w,
        };
        Ok(
            CodecDecoderBlockF16Weights {
                index: names.index,
                snake_alpha,
                conv_transpose_weight,
                conv_transpose_bias,
                residual_1,
                residual_2,
                residual_3,
            },
        )
    }

    /// The weights as values.
    pub fn values<T: Copy, F: Fn(Op, T, T, T) -> T>(&self, calc: &Calc<T, F>) -> (r:
        CodecDecoderBlockValues<T>)
        requires
            calc.works(),
        ensures
            r.come_from(*self, *calc),
    {
        CodecDecoderBlockValues {
            index: self.index,
            snake_alpha: to_values(self.snake_alpha.values(), calc),
            conv_transpose_weight: to_values(self.conv_transpose_weight.values(), calc),
            conv_transpose_bias: to_values(self.conv_transpose_bias.values(), calc),
            residual_1: self.residual_1.values(calc),
            residual_2: self.residual_2.values(calc),
            residual_3: self.residual_3.values(calc),
        }
    }
}

impl<T: Copy> CodecDecoderBlockValues<T> {
    /// Whether the values are those of stored weights.
    pub open spec fn come_from<F: Fn(Op, T, T, T) -> T>(
        &self,
        w: CodecDecoderBlockF16Weights,
        calc: Calc<T, F>,
    ) -> bool {
        &&& self.index == w.index
        &&& are_values(w.snake_alpha@.values, calc, self.snake_alpha@)
        &&& are_values(w.conv_transpose_weight@.values, calc, self.conv_transpose_weight@)
        &&& are_values(w.conv_transpose_bias@.values, calc, self.conv_transpose_bias@)
        &&& self.residual_1.come_from_residual_unit(w.residual_1, calc)
        &&& self.residual_2.come_from_residual_unit(w.residual_2, calc)
        &&& self.residual_3.come_from_residual_unit(w.residual_3, calc)
    }
}

/// The weights of the decoder, as they are stored.
#[derive(Debug)]
pub struct CodecDecoderF16Weights {
    pub entry_conv_weight: F16TensorView,
    pub entry_conv_bias: F16TensorView,
    pub blocks: Vec<CodecDecoderBlockF16Weights>,
    pub tail_snake_alpha: F16TensorView,
    pub output_conv_weight: F16TensorView,
    pub output_conv_bias: F16TensorView,
}

/// The weights of the decoder as values.
#[derive(Debug)]
pub struct CodecDecoderValues<T> {
    pub entry_conv_weight: Vec<T>,
    pub entry_conv_bias: Vec<T>,
    pub blocks: Vec<CodecDecoderBlockValues<T>>,
    pub tail_snake_alpha: Vec<T>,
    pub output_conv_weight: Vec<T>,
    pub output_conv_bias: Vec<T>,
}

/// What is wrong with reading each decoder block, if anything.
pub open spec fn decoder_block_reads(f: FileView, file: Seq<u8>) -> spec_fn(int) -> Option<
    ErrorView,
> {
    |i: int| decoder_block_read_error(f, file, (i + 1) as usize)
}

/// What is wrong with the decoder of a file, if anything.
pub open spec fn decoder_error(f: FileView, file: Seq<u8>) -> Option<ErrorView> {
    or_else(
        read_error(f, file, "decoder.model.0.conv.weight"@),
        or_else(
            read_error(f, file, "decoder.model.0.conv.bias"@),
            or_else(
                first_of(decoder_block_reads(f, file), 0, 4),
                or_else(
                    read_error(f, file, "decoder.model.5.alpha"@),
                    or_else(
                        read_error(f, file, "decoder.model.6.conv.weight"@),
                        or_else(
                            read_error(f, file, "decoder.model.6.conv.bias"@),
                            or_else(
                                f16_dims_error(tensor_at(f, file, "decoder.model.0.conv.weight"@), d3(7, 1024, 1536)),
                                or_else(
                                    f16_dims_error(tensor_at(f, file, "decoder.model.0.conv.bias"@), d1(1536)),
                                    or_else(
                                        f16_dims_error(tensor_at(f, file, "decoder.model.5.alpha"@), d3(1, 96, 1)),
                                        or_else(
                                            f16_dims_error(tensor_at(f, file, "decoder.model.6.conv.weight"@), d3(7, 96, 1)),
                                            f16_dims_error(tensor_at(f, file, "decoder.model.6.conv.bias"@), d1(1)),
                                        ),
                                    ),
                                ),
                            ),
                        ),
                    ),
                ),
            ),
        ),
    )
}

impl CodecDecoderF16Weights {
    /// Whether the weights are those of the decoder of a file.
    pub open spec fn are_of(&self, f: FileView, file: Seq<u8>) -> bool {
        &&& is_tensor(self.entry_conv_weight, f, file, "decoder.model.0.conv.weight"@)
        &&& is_tensor(self.entry_conv_bias, f, file, "decoder.model.0.conv.bias"@)
        &&& self.blocks@.len() == 4
        &&& forall|i: int|
            0 <= i < 4 ==> (#[trigger] self.blocks@[i]).are_of(f, file, (i + 1) as usize)
        &&& is_tensor(self.tail_snake_alpha, f, file, "decoder.model.5.alpha"@)
        &&& is_tensor(self.output_conv_weight, f, file, "decoder.model.6.conv.weight"@)
        &&& is_tensor(self.output_conv_bias, f, file, "decoder.model.6.conv.bias"@)
    }

    /// The weights of the decoder of a model file.
    pub fn from_gguf(gguf: &GgufFile, file: &[u8]) -> (r: Result<CodecDecoderF16Weights, InferError>)
        requires
            tensors_inside(gguf@),
        ensures
            match r {
                Ok(w) => decoder_error(gguf@, file@) is None && w.are_of(gguf@, file@),
                Err(e) => decoder_error(gguf@, file@) == Some(e@),
            },
    {
        let names = CodecDecoderWeights::new();
        CodecDecoderF16Weights::from_gguf_names(gguf, file, &names)
    }

    /// The weights of the decoder under the given names.
    pub fn from_gguf_names(gguf: &GgufFile, file: &[u8], names: &CodecDecoderWeights) -> (r: Result<
        CodecDecoderF16Weights,
        InferError,
    >)
        requires
            tensors_inside(gguf@),
            names.whole(),
        ensures
            match r {
                Ok(w) => decoder_error(gguf@, file@) is None && w.are_of(gguf@, file@),
                Err(e) => decoder_error(gguf@, file@) == Some(e@),
            },
    {
        let entry_conv_weight = match F16TensorView::from_gguf(gguf, file, names.entry_conv_weight.as_str()) {
            Err(e) => {
                return Err(e);
            },
            Ok(t) => t,
        };
        let entry_conv_bias = match F16TensorView::from_gguf(gguf, file, names.entry_conv_bias.as_str()) {
            Err(e) => {
                return Err(e);
            },
            Ok(t) => t,
        };
        let ghost g = decoder_block_reads(gguf@, file@);
        let mut blocks: Vec<CodecDecoderBlockF16Weights> = Vec::new();
        let mut i: usize = 0;
        while i < 4
            invariant
                i <= 4,
                tensors_inside(gguf@),
                names.whole(),
                g == decoder_block_reads(gguf@, file@),
                first_of(g, 0, 4) == first_of(g, i as int, 4),
                read_error(gguf@, file@, "decoder.model.0.conv.weight"@) is None,
                read_error(gguf@, file@, "decoder.model.0.conv.bias"@) is None,
                blocks@.len() == i,
                forall|k: int|
                    0 <= k < i ==> (#[trigger] blocks@[k]).are_of(
                        gguf@,
                        file@,
                        (k + 1) as usize,
                    ),
            decreases 4 - i,
        {
            let ghost here = g(i as int);
            assert(names.blocks@[i as int].of((i + 1) as usize));
            match CodecDecoderBlockF16Weights::from_names(gguf, file, &names.blocks[i]) {
                Err(e) => {
                    assert(here == Some(e@));
                    return Err(e);
                },
                Ok(w) => {
                    assert(here is None);
                    blocks.push(w);
                },
            }
            i = i + 1;
        }
        let tail_snake_alpha = match F16TensorView::from_gguf(gguf, file, names.tail_snake_alpha.as_str()) {
            Err(e) => {
                return Err(e);
            },
            Ok(t) => t,
        };
        let output_conv_weight = match F16TensorView::from_gguf(gguf, file, names.output_conv_weight.as_str()) {
            Err(e) => {
                return Err(e);
            },
            Ok(t) => t,
        };
        let output_conv_bias = match F16TensorView::from_gguf(gguf, file, names.output_conv_bias.as_str()) {
            Err(e) => {
                return Err(e);
            },
            Ok(t) => t,
        };
        match check_dims(&entry_conv_weight, list3(7, 1024, 1536).as_slice()) {
            Err(e) => {
                return Err(e);
            },
            Ok(_) => {},
        }
        match check_dims(&entry_conv_bias, list1(1536).as_slice()) {
            Err(e) => {
                return Err(e);
            },
            Ok(_) => {},
        }
        match check_dims(&tail_snake_alpha, list3(1, 96, 1).as_slice()) {
            Err(e) => {
                return Err(e);
            },
            Ok(_) => {},
        }
        match check_dims(&output_conv_weight, list3(7, 96, 1).as_slice()) {
            Err(e) => {
                return Err(e);
            },
            Ok(_) => {},
        }
        match check_dims(&output_conv_bias, list1(1).as_slice()) {
            Err(e) => {
                return Err(e);
            },
            Ok(_) => {},
        }
        Ok(
            CodecDecoderF16Weights {
                entry_conv_weight,
                entry_conv_bias,
                blocks,
                tail_snake_alpha,
                output_conv_weight,
                output_conv_bias,
            },
        )
    }

    /// The weights as values.
    pub fn values<T: Copy, F: Fn(Op, T, T, T) -> T>(&self, calc: &Calc<T, F>) -> (r:
        CodecDecoderValues<T>)
        requires
            calc.works(),
        ensures
            r.come_from(*self, *calc),
    {
        let mut blocks: Vec<CodecDecoderBlockValues<T>> = Vec::new();
        let mut i: usize = 0;
        while i < self.blocks.len()
            invariant
                i <= self.blocks@.len(),
                calc.works(),
                blocks@.len() == i,
                forall|k: int|
                    0 <= k < i ==> (#[trigger] blocks@[k]).come_from(self.blocks@[k], *calc),
            decreases self.blocks@.len() - i,
        {
            blocks.push(self.blocks[i].values(calc));
            i = i + 1;
        }
        CodecDecoderValues {
            entry_conv_weight: to_values(self.entry_conv_weight.values(), calc),
            entry_conv_bias: to_values(self.entry_conv_bias.values(), calc),
            blocks,
            tail_snake_alpha: to_values(self.tail_snake_alpha.values(), calc),
            output_conv_weight: to_values(self.output_conv_weight.values(), calc),
            output_conv_bias: to_values(self.output_conv_bias.values(), calc),
        }
    }
}

impl<T: Copy> CodecDecoderValues<T> {
    /// Whether the values are those of stored weights.
    pub open spec fn come_from<F: Fn(Op, T, T, T) -> T>(
        &self,
        w: CodecDecoderF16Weights,
        calc: Calc<T, F>,
    ) -> bool {
        &&& are_values(w.entry_conv_weight@.values, calc, self.entry_conv_weight@)
        &&& are_values(w.entry_conv_bias@.values, calc, self.entry_conv_bias@)
        &&& self.blocks@.len() == w.blocks@.len()
        &&& forall|i: int|
            0 <= i < w.blocks@.len() ==> (#[trigger] self.blocks@[i]).come_from(w.blocks@[i], calc)
        &&& are_values(w.tail_snake_alpha@.values, calc, self.tail_snake_alpha@)
        &&& are_values(w.output_conv_weight@.values, calc, self.output_conv_weight@)
        &&& are_values(w.output_conv_bias@.values, calc, self.output_conv_bias@)
    }
}

} // verus!
