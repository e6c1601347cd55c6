//! Weights of the slow transformer, read from a model file.
use crate::backend::{is_norm, norm_error, rms_norm_f32};
use crate::error::{message, ErrorView, InferError};
use crate::gguf::{tensors_inside, FileView, GgufFile};
use crate::numeric::{Calc, Op};
use crate::registry::{names_slow_layer, slow_name, SlowArLayerWeights, TransformerTensorRegistry};
use crate::sizes::{dims_error, expect_one, expect_two, is_finding, one_size, or_else, two_sizes};
use crate::slow_ar::SlowArLayerShape;
use crate::slow_layer::SlowArLayerSkeleton;
use crate::tensor::{
    f16_parts, is_half_product, matvec_error, matvec_f16_streaming, widened_values, F16TensorBytes,
    F16TensorView, F16View, WideView,
};
use crate::text::{dec, dec_usize, list_text, show_sizes, sizes};
use vstd::prelude::*;
use vstd::string::*;

verus! {

/// The widened tensor of a name.
pub open spec fn wide_of(f: FileView, file: Seq<u8>, name: Seq<char>) -> Result<
    WideView,
    ErrorView,
> {
    match f16_parts(f, file, name) {
        Err(e) => Err(e),
        Ok(p) => Ok(WideView { name, dimensions: p.0, values: widened_values(p.1) }),
    }
}

/// What is wrong with reading a tensor, if anything.
pub open spec fn read_error(f: FileView, file: Seq<u8>, name: Seq<char>) -> Option<ErrorView> {
    match f16_parts(f, file, name) {
        Err(e) => Some(e),
        Ok(_) => None,
    }
}

/// Whether a tensor is the one of a name.
pub open spec fn is_tensor(
    t: F16TensorView,
    f: FileView,
    file: Seq<u8>,
    name: Seq<char>,
) -> bool {
    wide_of(f, file, name) == Ok::<WideView, ErrorView>(t@)
}

// ---------------------------------------------------------------------
// Layers
// ---------------------------------------------------------------------

/// The weights of a slow layer, as they are stored.
#[derive(Debug)]
pub struct SlowArLayerF16Weights {
    pub attention_norm: F16TensorView,
    pub q_norm: F16TensorView,
    pub k_norm: F16TensorView,
    pub wqkv: F16TensorView,
    pub output: F16TensorView,
    pub ffn_norm: F16TensorView,
    pub feed_forward_w1: F16TensorView,
    pub feed_forward_w2: F16TensorView,
    pub feed_forward_w3: F16TensorView,
}

/// What is wrong with reading the tensors of a slow layer, if anything.
pub open spec fn layer_read_error(f: FileView, file: Seq<u8>, layer: usize) -> Option<ErrorView> {
    or_else(
        read_error(f, file, slow_name(layer, ".attention_norm.weight"@)),
        or_else(
            read_error(f, file, slow_name(layer, ".attention.q_norm.weight"@)),
            or_else(
                read_error(f, file, slow_name(layer, ".attention.k_norm.weight"@)),
                or_else(
                    read_error(f, file, slow_name(layer, ".attention.wqkv.weight"@)),
                    or_else(
                        read_error(f, file, slow_name(layer, ".attention.wo.weight"@)),
                        or_else(
                            read_error(f, file, slow_name(layer, ".ffn_norm.weight"@)),
                            or_else(
                                read_error(f, file, slow_name(layer, ".feed_forward.w1.weight"@)),
                                or_else(
                                    read_error(
                                        f,
                                        file,
                                        slow_name(layer, ".feed_forward.w2.weight"@),
                                    ),
                                    read_error(
                                        f,
                                        file,
                                        slow_name(layer, ".feed_forward.w3.weight"@),
                                    ),
                                ),
                            ),
                        ),
                    ),
                ),
            ),
        ),
    )
}

/// Whether the weights are those of a slow layer.
pub open spec fn is_layer_of(
    w: SlowArLayerF16Weights,
    f: FileView,
    file: Seq<u8>,
    layer: usize,
) -> bool {
    &&& is_tensor(w.attention_norm, f, file, slow_name(layer, ".attention_norm.weight"@))
    &&& is_tensor(w.q_norm, f, file, slow_name(layer, ".attention.q_norm.weight"@))
    &&& is_tensor(w.k_norm, f, file, slow_name(layer, ".attention.k_norm.weight"@))
    &&& is_tensor(w.wqkv, f, file, slow_name(layer, ".attention.wqkv.weight"@))
    &&& is_tensor(w.output, f, file, slow_name(layer, ".attention.wo.weight"@))
    &&& is_tensor(w.ffn_norm, f, file, slow_name(layer, ".ffn_norm.weight"@))
    &&& is_tensor(w.feed_forward_w1, f, file, slow_name(layer, ".feed_forward.w1.weight"@))
    &&& is_tensor(w.feed_forward_w2, f, file, slow_name(layer, ".feed_forward.w2.weight"@))
    &&& is_tensor(w.feed_forward_w3, f, file, slow_name(layer, ".feed_forward.w3.weight"@))
}

/// The dimensions of the tensor of a name.
pub open spec fn dims_of(f: FileView, file: Seq<u8>, layer: usize, tail: Seq<char>) -> Seq<usize> {
    wide_of(f, file, slow_name(layer, tail))->Ok_0.dimensions
}

/// What is wrong with the dimensions of a layer's tensors, if anything.
pub open spec fn layer_dims_error(
    attention_norm: Seq<usize>,
    q_norm: Seq<usize>,
    k_norm: Seq<usize>,
    wqkv: Seq<usize>,
    output: Seq<usize>,
    ffn_norm: Seq<usize>,
    w1: Seq<usize>,
    w2: Seq<usize>,
    w3: Seq<usize>,
    s: SlowArLayerShape,
) -> Option<ErrorView> {
    let h = s.hidden_size;
    let ff = s.feed_forward_size;
    or_else(
        dims_error("attention_norm"@, attention_norm, one_size(h)),
        or_else(
            dims_error("q_norm"@, q_norm, one_size(s.head_dim)),
            or_else(
                dims_error("k_norm"@, k_norm, one_size(s.head_dim)),
                match s.all() {
                    Err(e) => Some(e),
                    Ok(all) => or_else(
                        dims_error("wqkv"@, wqkv, two_sizes(h, all)),
                        or_else(
                            dims_error(
                                "attention_output"@,
                                output,
                                two_sizes(s.queries()->Ok_0, h),
                            ),
                            or_else(
                                dims_error("ffn_norm"@, ffn_norm, one_size(h)),
                                or_else(
                                    dims_error("feed_forward_w1"@, w1, two_sizes(h, ff)),
                                    or_else(
                                        dims_error("feed_forward_w2"@, w2, two_sizes(ff, h)),
                                        dims_error("feed_forward_w3"@, w3, two_sizes(h, ff)),
                                    ),
                                ),
                            ),
                        ),
                    ),
                },
            ),
        ),
    )
}

/// What is wrong with a slow layer of a file, if anything.
pub open spec fn layer_error(
    f: FileView,
    file: Seq<u8>,
    layer: usize,
    s: SlowArLayerShape,
) -> Option<ErrorView> {
    if layer >= 36 {
        Some(message("slow layer not found: "@ + dec(layer as nat)))
    } else {
        or_else(
            layer_read_error(f, file, layer),
            layer_dims_error(
                dims_of(f, file, layer, ".attention_norm.weight"@),
                dims_of(f, file, layer, ".attention.q_norm.weight"@),
                dims_of(f, file, layer, ".attention.k_norm.weight"@),
                dims_of(f, file, layer, ".attention.wqkv.weight"@),
                dims_of(f, file, layer, ".attention.wo.weight"@),
                dims_of(f, file, layer, ".ffn_norm.weight"@),
                dims_of(f, file, layer, ".feed_forward.w1.weight"@),
                dims_of(f, file, layer, ".feed_forward.w2.weight"@),
                dims_of(f, file, layer, ".feed_forward.w3.weight"@),
                s,
            ),
        )
    }
}

fn read_layer(gguf: &GgufFile, file: &[u8], names: &SlowArLayerWeights, layer: Ghost<usize>) -> (r:
    Result<SlowArLayerF16Weights, InferError>)
    requires
        tensors_inside(gguf@),
        names_slow_layer(*names, layer@),
    ensures
        match r {
            Ok(w) => layer_read_error(gguf@, file@, layer@) is None && is_layer_of(
                w,
                gguf@,
                file@,
                layer@,
            ),
            Err(e) => layer_read_error(gguf@, file@, layer@) == Some(e@),
        },
{
    let attention_norm = match F16TensorView::from_gguf(
        gguf,
        file,
        names.attention_norm.as_str(),
    ) {
        Err(e) => {
            return Err(e);
        },
        Ok(t) => t,
    };
    let q_norm = match F16TensorView::from_gguf(gguf, file, names.attention_q_norm.as_str()) {
        Err(e) => {
            return Err(e);
        },
        Ok(t) => t,
    };
    let k_norm = match F16TensorView::from_gguf(gguf, file, names.attention_k_norm.as_str()) {
        Err(e) => {
            return Err(e);
        },
        Ok(t) => t,
    };
    let wqkv = match F16TensorView::from_gguf(gguf, file, names.attention_wqkv.as_str()) {
        Err(e) => {
            return Err(e);
        },
        Ok(t) => t,
    };
    let output = match F16TensorView::from_gguf(gguf, file, names.attention_output.as_str()) {
        Err(e) => {
            return Err(e);
        },
        Ok(t) => t,
    };
    let ffn_norm = match F16TensorView::from_gguf(gguf, file, names.ffn_norm.as_str()) {
        Err(e) => {
            return Err(e);
        },
        Ok(t) => t,
    };
    let feed_forward_w1 = match F16TensorView::from_gguf(
        gguf,
        file,
        names.feed_forward_w1.as_str(),
    ) {
        Err(e) => {
            return Err(e);
        },
        Ok(t) => t,
    };
    let feed_forward_w2 = match F16TensorView::from_gguf(
        gguf,
        file,
        names.feed_forward_w2.as_str(),
    ) {
        Err(e) => {
            return Err(e);
        },
        Ok(t) => t,
    };
    let feed_forward_w3 = match F16TensorView::from_gguf(
        gguf,
        file,
        names.feed_forward_w3.as_str(),
    ) {
        Err(e) => {
            return Err(e);
        },
        Ok(t) => t,
    };
    Ok(
        SlowArLayerF16Weights {
            attention_norm,
            q_norm,
            k_norm,
            wqkv,
            output,
            ffn_norm,
            feed_forward_w1,
            feed_forward_w2,
            feed_forward_w3,
        },
    )
}

impl SlowArLayerF16Weights {
    /// What is wrong with the dimensions, if anything.
    pub open spec fn dims_finding(&self, s: SlowArLayerShape) -> Option<ErrorView> {
        layer_dims_error(
            self.attention_norm@.dimensions,
            self.q_norm@.dimensions,
            self.k_norm@.dimensions,
            self.wqkv@.dimensions,
            self.output@.dimensions,
            self.ffn_norm@.dimensions,
            self.feed_forward_w1@.dimensions,
            self.feed_forward_w2@.dimensions,
            self.feed_forward_w3@.dimensions,
            s,
        )
    }

    /// Checks the dimensions of the weights.
    pub fn validate_dimensions(&self, shape: SlowArLayerShape) -> (r: Result<(), InferError>)
        ensures
            is_finding(r, self.dims_finding(shape)),
    {
        let h: usize = shape.hidden_size;
        let ff: usize = shape.feed_forward_size;
        match expect_one("attention_norm", self.attention_norm.dimensions(), h) {
            Err(e) => {
                return Err(e);
            },
            Ok(_) => {},
        }
        match expect_one("q_norm", self.q_norm.dimensions(), shape.head_dim) {
            Err(e) => {
                return Err(e);
            },
            Ok(_) => {},
        }
        match expect_one("k_norm", self.k_norm.dimensions(), shape.head_dim) {
            Err(e) => {
                return Err(e);
            },
            Ok(_) => {},
        }
        let all: usize = match shape.wqkv_out() {
            Err(e) => {
                return Err(e);
            },
            Ok(n) => n,
        };
        match expect_two("wqkv", self.wqkv.dimensions(), h, all) {
            Err(e) => {
                return Err(e);
            },
            Ok(_) => {},
        }
        let q: usize = match shape.q_size() {
            Err(e) => {
                return Err(e);
            },
            Ok(n) => n,
        };
        match expect_two("attention_output", self.output.dimensions(), q, h) {
            Err(e) => {
                return Err(e);
            },
            Ok(_) => {},
        }
        match expect_one("ffn_norm", self.ffn_norm.dimensions(), h) {
            Err(e) => {
                return Err(e);
            },
            Ok(_) => {},
        }
        match expect_two("feed_forward_w1", self.feed_forward_w1.dimensions(), h, ff) {
            Err(e) => {
                return Err(e);
            },
            Ok(_) => {},
        }
        match expect_two("feed_forward_w2", self.feed_forward_w2.dimensions(), ff, h) {
            Err(e) => {
                return Err(e);
            },
            Ok(_) => {},
        }
        expect_two("feed_forward_w3", self.feed_forward_w3.dimensions(), h, ff)
    }

    /// The weights of a slow layer of a model file.
    pub fn from_gguf_layer(
        gguf: &GgufFile,
        file: &[u8],
        registry: &TransformerTensorRegistry,
        layer: usize,
    ) -> (r: Result<SlowArLayerF16Weights, InferError>)
        requires
            tensors_inside(gguf@),
            registry.complete(),
        ensures
            match r {
                Ok(w) => layer_error(
                    gguf@,
                    file@,
                    layer,
                    SlowArLayerShape::of(registry.graph().slow),
                ) is None && is_layer_of(w, gguf@, file@, layer),
                Err(e) => layer_error(
                    gguf@,
                    file@,
                    layer,
                    SlowArLayerShape::of(registry.graph().slow),
                ) == Some(e@),
            },
    {
        let names = match registry.slow_layer(layer) {
            None => {
                let a = dec_usize(layer);
                return Err(
                    InferError::Message(
                        String::from_str("slow layer not found: ").concat(a.as_str()),
                    ),
                );
            },
            Some(n) => n,
        };
        let shape = match SlowArLayerShape::from_ar_graph_spec(&registry.graph_spec().slow) {
            Err(e) => {
                return Err(e);
            },
            Ok(s) => s,
        };
        let weights = match read_layer(gguf, file, names, Ghost(layer)) {
            Err(e) => {
                return Err(e);
            },
            Ok(w) => w,
        };
        match weights.validate_dimensions(shape) {
            Err(e) => Err(e),
            Ok(_) => Ok(weights),
        }
    }
}

// ---------------------------------------------------------------------
// Values
// ---------------------------------------------------------------------

/// Whether the values are those with the given bits.
pub open spec fn are_values<T: Copy, F: Fn(Op, T, T, T) -> T>(
    bits: Seq<u32>,
    calc: Calc<T, F>,
    values: Seq<T>,
) -> bool {
    &&& values.len() == bits.len()
    &&& forall|i: int|
        0 <= i < bits.len() ==> calc.gives(
            Op::Single(bits[i]),
            calc.zero,
            calc.zero,
            calc.zero,
            #[trigger] values[i],
        )
}

/// The values with the given bits.
pub fn to_values<T: Copy, F: Fn(Op, T, T, T) -> T>(bits: &[u32], calc: &Calc<T, F>) -> (r: Vec<T>)
    requires
        calc.works(),
    ensures
        are_values(bits@, *calc, r@),
{
    let mut out: Vec<T> = Vec::new();
    let mut i: usize = 0;
    while i < bits.len()
        invariant
            i <= bits@.len(),
            calc.works(),
            out@.len() == i,
            forall|k: int|
                0 <= k < i ==> calc.gives(
                    Op::Single(bits@[k]),
                    calc.zero,
                    calc.zero,
                    calc.zero,
                    #[trigger] out@[k],
                ),
        decreases bits@.len() - i,
    {
        let v: T = calc.constant(Op::Single(bits[i]));
        out.push(v);
        i = i + 1;
    }
    out
}

/// The weights of a slow layer as values.
#[derive(Debug)]
pub struct SlowArLayerValues<T> {
    pub attention_norm: Vec<T>,
    pub q_norm: Vec<T>,
    pub k_norm: Vec<T>,
    pub wqkv: Vec<T>,
    pub output: Vec<T>,
    pub ffn_norm: Vec<T>,
    pub feed_forward_w1: Vec<T>,
    pub feed_forward_w2: Vec<T>,
    pub feed_forward_w3: Vec<T>,
}

impl SlowArLayerF16Weights {
    /// The weights as values.
    pub fn values<T: Copy, F: Fn(Op, T, T, T) -> T>(&self, calc: &Calc<T, F>) -> (r:
        SlowArLayerValues<T>)
        requires
            calc.works(),
        ensures
            are_values(self.attention_norm@.values, *calc, r.attention_norm@),
            are_values(self.q_norm@.values, *calc, r.q_norm@),
            are_values(self.k_norm@.values, *calc, r.k_norm@),
            are_values(self.wqkv@.values, *calc, r.wqkv@),
            are_values(self.output@.values, *calc, r.output@),
            are_values(self.ffn_norm@.values, *calc, r.ffn_norm@),
            are_values(self.feed_forward_w1@.values, *calc, r.feed_forward_w1@),
            are_values(self.feed_forward_w2@.values, *calc, r.feed_forward_w2@),
            are_values(self.feed_forward_w3@.values, *calc, r.feed_forward_w3@),
    {
        SlowArLayerValues {
            attention_norm: to_values(self.attention_norm.values(), calc),
            q_norm: to_values(self.q_norm.values(), calc),
            k_norm: to_values(self.k_norm.values(), calc),
            wqkv: to_values(self.wqkv.values(), calc),
            output: to_values(self.output.values(), calc),
            ffn_norm: to_values(self.ffn_norm.values(), calc),
            feed_forward_w1: to_values(self.feed_forward_w1.values(), calc),
            feed_forward_w2: to_values(self.feed_forward_w2.values(), calc),
            feed_forward_w3: to_values(self.feed_forward_w3.values(), calc),
        }
    }
}

impl<T> SlowArLayerValues<T> {
    /// The layer with these weights.
    pub fn skeleton(&self, shape: SlowArLayerShape) -> (r: SlowArLayerSkeleton<'_, T>)
        ensures
            r.shape == shape,
            r.attention_norm_weight@ == self.attention_norm@,
            r.q_norm_weight@ == self.q_norm@,
            r.k_norm_weight@ == self.k_norm@,
            r.wqkv_weight@ == self.wqkv@,
            r.output_weight@ == self.output@,
            r.ffn_norm_weight@ == self.ffn_norm@,
            r.feed_forward_w1_weight@ == self.feed_forward_w1@,
            r.feed_forward_w2_weight@ == self.feed_forward_w2@,
            r.feed_forward_w3_weight@ == self.feed_forward_w3@,
    {
        SlowArLayerSkeleton {
            shape,
            attention_norm_weight: self.attention_norm.as_slice(),
            q_norm_weight: self.q_norm.as_slice(),
            k_norm_weight: self.k_norm.as_slice(),
            wqkv_weight: self.wqkv.as_slice(),
            output_weight: self.output.as_slice(),
            ffn_norm_weight: self.ffn_norm.as_slice(),
            feed_forward_w1_weight: self.feed_forward_w1.as_slice(),
            feed_forward_w2_weight: self.feed_forward_w2.as_slice(),
            feed_forward_w3_weight: self.feed_forward_w3.as_slice(),
        }
    }
}

// ---------------------------------------------------------------------
// The output head
// ---------------------------------------------------------------------

/// The last norm, and the table that makes logits.
#[derive(Debug)]
pub struct SlowArOutputHeadF16Weights {
    pub norm: F16TensorView,
    pub embeddings: F16TensorBytes,
}

/// The last norm of a token, and its logits.
#[derive(Debug)]
pub struct SlowArLogitsOutput<T> {
    pub normalized: Vec<T>,
    pub logits: Vec<T>,
}

/// What is wrong with the dimensions of an output head, if anything.
pub open spec fn head_dims_error(norm: Seq<usize>, embeddings: Seq<usize>) -> Option<ErrorView> {
    if norm.len() != 1 {
        Some(
            message(
                "norm.weight dimensions mismatch: expected rank 1, got "@ + list_text(sizes(norm)),
            ),
        )
    } else if embeddings.len() != 2 {
        Some(
            message(
                "embeddings.weight dimensions mismatch: expected rank 2, got "@ + list_text(
                    sizes(embeddings),
                ),
            ),
        )
    } else if embeddings[0] != norm[0] {
        Some(
            message(
                "output head hidden size mismatch: norm="@ + dec(norm[0] as nat) + " embeddings="@
                    + dec(embeddings[0] as nat),
            ),
        )
    } else {
        None
    }
}

/// What is wrong with making logits, if anything.
pub open spec fn logits_error(norm: WideView, embeddings: F16View, hidden: nat) -> Option<
    ErrorView,
> {
    or_else(
        head_dims_error(norm.dimensions, embeddings.dimensions),
        or_else(
            norm_error(hidden, norm.values.len()),
            matvec_error(
                hidden,
                embeddings.bytes.len(),
                norm.dimensions[0],
                embeddings.dimensions[1],
            ),
        ),
    )
}

/// Whether the logits come from a hidden state: its norm, times every row of the table.
pub open spec fn are_logits<T: Copy, F: Fn(Op, T, T, T) -> T>(
    norm: WideView,
    embeddings: F16View,
    hidden: Seq<T>,
    eps: u32,
    calc: Calc<T, F>,
    normalized: Seq<T>,
    logits: Seq<T>,
) -> bool {
    &&& exists|weight: Seq<T>|
        #[trigger] are_values(norm.values, calc, weight) && is_norm(
            hidden,
            weight,
            eps,
            calc,
            normalized,
        )
    &&& logits.len() == embeddings.dimensions[1]
    &&& forall|o: int|
        0 <= o < logits.len() ==> is_half_product(
            normalized,
            embeddings.bytes,
            o,
            calc,
            #[trigger] logits[o],
        )
}

impl SlowArOutputHeadF16Weights {
    /// The output head of a model file.
    pub fn from_gguf(gguf: &GgufFile, file: &[u8]) -> (r: Result<
        SlowArOutputHeadF16Weights,
        InferError,
    >)
        requires
            tensors_inside(gguf@),
        ensures
            match r {
                Ok(w) => {
                    &&& is_tensor(w.norm, gguf@, file@, "norm.weight"@)
                    &&& f16_parts(gguf@, file@, "embeddings.weight"@) == Ok::<
                        (Seq<usize>, Seq<u8>),
                        ErrorView,
                    >((w.embeddings@.dimensions, w.embeddings@.bytes))
                    &&& head_dims_error(w.norm@.dimensions, w.embeddings@.dimensions) is None
                },
                Err(e) => or_else(
                    read_error(gguf@, file@, "norm.weight"@),
                    or_else(
                        read_error(gguf@, file@, "embeddings.weight"@),
                        head_dims_error(
                            f16_parts(gguf@, file@, "norm.weight"@)->Ok_0.0,
                            f16_parts(gguf@, file@, "embeddings.weight"@)->Ok_0.0,
                        ),
                    ),
                ) == Some(e@),
            },
    {
        let norm = match F16TensorView::from_gguf(gguf, file, "norm.weight") {
            Err(e) => {
                return Err(e);
            },
            Ok(t) => t,
        };
        let embeddings = match F16TensorBytes::from_gguf(gguf, file, "embeddings.weight") {
            Err(e) => {
                return Err(e);
            },
            Ok(t) => t,
        };
        let weights = SlowArOutputHeadF16Weights { norm, embeddings };
        match weights.validate_dimensions() {
            Err(e) => Err(e),
            Ok(_) => Ok(weights),
        }
    }

    /// Checks the dimensions of the output head.
    pub fn validate_dimensions(&self) -> (r: Result<(), InferError>)
        ensures
            is_finding(r, head_dims_error(self.norm@.dimensions, self.embeddings@.dimensions)),
    {
        let norm = self.norm.dimensions();
        if norm.len() != 1 {
            let a = show_sizes(norm);
            return Err(
                InferError::Message(
                    String::from_str(
                        "norm.weight dimensions mismatch: expected rank 1, got ",
                    ).concat(a.as_str()),
                ),
            );
        }
        let embeddings = self.embeddings.dimensions();
        if embeddings.len() != 2 {
            let a = show_sizes(embeddings);
            return Err(
                InferError::Message(
                    String::from_str(
                        "embeddings.weight dimensions mismatch: expected rank 2, got ",
                    ).concat(a.as_str()),
                ),
            );
        }
        if embeddings[0] != norm[0] {
            let a = dec_usize(norm[0]);
            let b = dec_usize(embeddings[0]);
            return Err(
                InferError::Message(
                    String::from_str("output head hidden size mismatch: norm=").concat(
                        a.as_str(),
                    ).concat(" embeddings=").concat(b.as_str()),
                ),
            );
        }
        Ok(())
    }

    /// The last norm of a hidden state, and its logits.
    pub fn forward_logits<T: Copy, F: Fn(Op, T, T, T) -> T>(
        &self,
        hidden: &[T],
        rms_norm_eps: u32,
        calc: &Calc<T, F>,
    ) -> (r: Result<SlowArLogitsOutput<T>, InferError>)
        requires
            calc.works(),
        ensures
            match r {
                Ok(o) => logits_error(self.norm@, self.embeddings@, hidden@.len()) is None
                    && are_logits(
                    self.norm@,
                    self.embeddings@,
                    hidden@,
                    rms_norm_eps,
                    *calc,
                    o.normalized@,
                    o.logits@,
                ),
                Err(e) => logits_error(self.norm@, self.embeddings@, hidden@.len()) == Some(e@),
            },
    {
        match self.validate_dimensions() {
            Err(e) => {
                return Err(e);
            },
            Ok(_) => {},
        }
        let hidden_size: usize = self.norm.dimensions()[0];
        let vocab_size: usize = self.embeddings.dimensions()[1];
        let weight = to_values(self.norm.values(), calc);
        let normalized = match rms_norm_f32(hidden, weight.as_slice(), rms_norm_eps, calc) {
            Err(e) => {
                return Err(e);
            },
            Ok(v) => v,
        };
        let logits = match matvec_f16_streaming(
            normalized.as_slice(),
            self.embeddings.bytes(),
            hidden_size,
            vocab_size,
            calc,
        ) {
            Err(e) => {
                return Err(e);
            },
            Ok(v) => v,
        };
        assert(are_values(self.norm@.values, *calc, weight@));
        Ok(SlowArLogitsOutput { normalized, logits })
    }
}

} // verus!
