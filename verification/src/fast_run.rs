//! The fast transformer as a whole: weights of a model file, logits of the next code, and the
//! codes of one frame.
use crate::backend::{is_norm, linear_error, norm_error, rms_norm_f32, CpuMatmulBackend};
use crate::error::{message, mismatch, size_mismatch, ErrorView, InferError};
use crate::fast_ar::{FastArLayerShape, FastArLayerValues};
use crate::gguf::{tensors_inside, FileView, GgufFile};
use crate::graph::DualArGraphSpec;
use crate::numeric::{is_linear, row, Calc, Op};
use crate::registry::{fast_name, names_fast_layer, FastArLayerWeights, TransformerTensorRegistry};
use crate::sizes::{is_finding, or_else, same_sizes, two_sizes};
use crate::slow_sequence::{first_of, lists};
use crate::slow_weights::{are_values, is_tensor, read_error, to_values};
use crate::tensor::{embedding_lookup_rows, f16_parts, lookup_error, F16TensorView};
use crate::text::{dec, dec_u64, dec_usize, list_text, show_sizes, sizes};
use vstd::prelude::*;
use vstd::slice::slice_to_vec;
use vstd::string::*;

verus! {

// ---------------------------------------------------------------------
// Weights
// ---------------------------------------------------------------------

/// The weights of a fast layer, as they are stored.
#[derive(Debug)]
pub struct FastArLayerF16Weights {
    pub attention_norm: F16TensorView,
    pub wqkv: F16TensorView,
    pub output: F16TensorView,
    pub ffn_norm: F16TensorView,
    pub feed_forward_w1: F16TensorView,
    pub feed_forward_w2: F16TensorView,
    pub feed_forward_w3: F16TensorView,
}

/// The tables before and after the fast layers, as they are stored.
#[derive(Debug)]
pub struct FastArHeadF16Weights {
    pub embeddings: F16TensorView,
    pub norm: F16TensorView,
    pub output: F16TensorView,
}

/// The weights of the fast transformer, as they are stored.
#[derive(Debug)]
pub struct FastArWeights {
    pub layers: Vec<FastArLayerF16Weights>,
    pub head: FastArHeadF16Weights,
}

/// What is wrong with reading the tensors of a fast layer, if anything.
pub open spec fn fast_read_error(f: FileView, file: Seq<u8>, layer: usize) -> Option<ErrorView> {
    or_else(
        read_error(f, file, fast_name(layer, ".attention_norm.weight"@)),
        or_else(
            read_error(f, file, fast_name(layer, ".attention.wqkv.weight"@)),
            or_else(
                read_error(f, file, fast_name(layer, ".attention.wo.weight"@)),
                or_else(
                    read_error(f, file, fast_name(layer, ".ffn_norm.weight"@)),
                    or_else(
                        read_error(f, file, fast_name(layer, ".feed_forward.w1.weight"@)),
                        or_else(
                            read_error(f, file, fast_name(layer, ".feed_forward.w2.weight"@)),
                            read_error(f, file, fast_name(layer, ".feed_forward.w3.weight"@)),
                        ),
                    ),
                ),
            ),
        ),
    )
}

/// What is wrong with the shape of a fast layer, if anything.
pub open spec fn fast_shape_error(layer: usize, w1: Seq<usize>) -> Option<ErrorView> {
    if w1 != two_sizes(2560, 9728) {
        Some(
            message(
                fast_name(
                    layer,
                    ".feed_forward.w1.weight: expected [2560, 9728], got "@,
                ) + list_text(sizes(w1)),
            ),
        )
    } else {
        None
    }
}

/// What is wrong with a fast layer of a file, if anything.
pub open spec fn fast_layer_error(f: FileView, file: Seq<u8>, layer: usize) -> Option<ErrorView> {
    if layer >= 4 {
        Some(message("fast layer "@ + dec(layer as nat) + " out of range (count=4)"@))
    } else {
        or_else(
            fast_read_error(f, file, layer),
            fast_shape_error(
                layer,
                f16_parts(f, file, fast_name(layer, ".feed_forward.w1.weight"@))->Ok_0.0,
            ),
        )
    }
}

/// Whether the weights are those of a fast layer.
pub open spec fn is_fast_layer_of(
    w: FastArLayerF16Weights,
    f: FileView,
    file: Seq<u8>,
    layer: usize,
) -> bool {
    &&& is_tensor(w.attention_norm, f, file, fast_name(layer, ".attention_norm.weight"@))
    &&& is_tensor(w.wqkv, f, file, fast_name(layer, ".attention.wqkv.weight"@))
    &&& is_tensor(w.output, f, file, fast_name(layer, ".attention.wo.weight"@))
    &&& is_tensor(w.ffn_norm, f, file, fast_name(layer, ".ffn_norm.weight"@))
    &&& is_tensor(w.feed_forward_w1, f, file, fast_name(layer, ".feed_forward.w1.weight"@))
    &&& is_tensor(w.feed_forward_w2, f, file, fast_name(layer, ".feed_forward.w2.weight"@))
    &&& is_tensor(w.feed_forward_w3, f, file, fast_name(layer, ".feed_forward.w3.weight"@))
}

fn read_fast_layer(
    gguf: &GgufFile,
    file: &[u8],
    names: &FastArLayerWeights,
    layer: Ghost<usize>,
) -> (r: Result<FastArLayerF16Weights, InferError>)
    requires
        tensors_inside(gguf@),
        names_fast_layer(*names, layer@),
    ensures
        match r {
            Ok(w) => fast_read_error(gguf@, file@, layer@) is None && is_fast_layer_of(
                w,
                gguf@,
                file@,
                layer@,
            ),
            Err(e) => fast_read_error(gguf@, file@, layer@) == Some(e@),
        },
{
    let attention_norm = match F16TensorView::from_gguf(
        gguf,
        file,
        names.attention_norm.as_str(),
    ) {
        Err(e) => {
            return Err(e);
        },
        Ok(t) => t,
    };
    let wqkv = match F16TensorView::from_gguf(gguf, file, names.attention_wqkv.as_str()) {
        Err(e) => {
            return Err(e);
        },
        Ok(t) => t,
    };
    let output = match F16TensorView::from_gguf(gguf, file, names.attention_output.as_str()) {
        Err(e) => {
            return Err(e);
        },
        Ok(t) => t,
    };
    let ffn_norm = match F16TensorView::from_gguf(gguf, file, names.ffn_norm.as_str()) {
        Err(e) => {
            return Err(e);
        },
        Ok(t) => t,
    };
    let feed_forward_w1 = match F16TensorView::from_gguf(
        gguf,
        file,
        names.feed_forward_w1.as_str(),
    ) {
        Err(e) => {
            return Err(e);
        },
        Ok(t) => t,
    };
    let feed_forward_w2 = match F16TensorView::from_gguf(
        gguf,
        file,
        names.feed_forward_w2.as_str(),
    ) {
        Err(e) => {
            return Err(e);
        },
        Ok(t) => t,
    };
    let feed_forward_w3 = match F16TensorView::from_gguf(
        gguf,
        file,
        names.feed_forward_w3.as_str(),
    ) {
        Err(e) => {
            return Err(e);
        },
        Ok(t) => t,
    };
    Ok(
        FastArLayerF16Weights {
            attention_norm,
            wqkv,
            output,
            ffn_norm,
            feed_forward_w1,
            feed_forward_w2,
            feed_forward_w3,
        },
    )
}

fn is_two(dims: &[usize], a: usize, b: usize) -> (r: bool)
    ensures
        r == (dims@ == two_sizes(a, b)),
{
    let mut v: Vec<usize> = Vec::new();
    v.push(a);
    v.push(b);
    assert(v@ =~= two_sizes(a, b));
    same_sizes(dims, v.as_slice())
}

impl FastArLayerF16Weights {
    /// Checks the shape of a fast layer.
    pub fn validate_shapes(&self, layer: usize) -> (r: Result<(), InferError>)
        ensures
            is_finding(r, fast_shape_error(layer, self.feed_forward_w1@.dimensions)),
    {
        let dims = self.feed_forward_w1.dimensions();
        if !is_two(dims, 2560, 9728) {
            let a = dec_usize(layer);
            let b = show_sizes(dims);
            return Err(
                InferError::Message(
                    String::from_str("fast_layers.").concat(a.as_str()).concat(
                        ".feed_forward.w1.weight: expected [2560, 9728], got ",
                    ).concat(b.as_str()),
                ),
            );
        }
        Ok(())
    }

    /// The weights of a fast layer of a model file.
    pub fn from_gguf_layer(
        gguf: &GgufFile,
        file: &[u8],
        registry: &TransformerTensorRegistry,
        layer: usize,
    ) -> (r: Result<FastArLayerF16Weights, InferError>)
        requires
            tensors_inside(gguf@),
            registry.complete(),
        ensures
            match r {
                Ok(w) => fast_layer_error(gguf@, file@, layer) is None && is_fast_layer_of(
                    w,
                    gguf@,
                    file@,
                    layer,
                ),
                Err(e) => fast_layer_error(gguf@, file@, layer) == Some(e@),
            },
    {
        let names = match registry.fast_layer(layer) {
            None => {
                let a = dec_usize(layer);
                return Err(
                    InferError::Message(
                        String::from_str("fast layer ").concat(a.as_str()).concat(
                            " out of range (count=4)",
                        ),
                    ),
                );
            },
            Some(n) => n,
        };
        let weights = match read_fast_layer(gguf, file, names, Ghost(layer)) {
            Err(e) => {
                return Err(e);
            },
            Ok(w) => w,
        };
        match weights.validate_shapes(layer) {
            Err(e) => Err(e),
            Ok(_) => Ok(weights),
        }
    }

    /// The weights as values.
    pub fn values<T: Copy, F: Fn(Op, T, T, T) -> T>(&self, calc: &Calc<T, F>) -> (r:
        FastArLayerValues<T>)
        requires
            calc.works(),
        ensures
            are_values(self.attention_norm@.values, *calc, r.attention_norm@),
            are_values(self.wqkv@.values, *calc, r.wqkv@),
            are_values(self.output@.values, *calc, r.output@),
            are_values(self.ffn_norm@.values, *calc, r.ffn_norm@),
            are_values(self.feed_forward_w1@.values, *calc, r.feed_forward_w1@),
            are_values(self.feed_forward_w2@.values, *calc, r.feed_forward_w2@),
            are_values(self.feed_forward_w3@.values, *calc, r.feed_forward_w3@),
    {
        FastArLayerValues {
            attention_norm: to_values(self.attention_norm.values(), calc),
            wqkv: to_values(self.wqkv.values(), calc),
            output: to_values(self.output.values(), calc),
            ffn_norm: to_values(self.ffn_norm.values(), calc),
            feed_forward_w1: to_values(self.feed_forward_w1.values(), calc),
            feed_forward_w2: to_values(self.feed_forward_w2.values(), calc),
            feed_forward_w3: to_values(self.feed_forward_w3.values(), calc),
        }
    }
}

/// What is wrong with the dimensions of the fast tables, if anything.
pub open spec fn fast_head_dims_error(embeddings: Seq<usize>, output: Seq<usize>) -> Option<
    ErrorView,
> {
    if embeddings != two_sizes(2560, 4096) {
        Some(
            message(
                "fast_embeddings.weight: expected [2560, 4096], got "@ + list_text(
                    sizes(embeddings),
                ),
            ),
        )
    } else if output != two_sizes(2560, 4096) {
        Some(
            message(
                "fast_output.weight: expected [2560, 4096], got "@ + list_text(sizes(output)),
            ),
        )
    } else {
        None
    }
}

/// What is wrong with the fast tables of a file, if anything.
pub open spec fn fast_head_error(f: FileView, file: Seq<u8>) -> Option<ErrorView> {
    or_else(
        read_error(f, file, "fast_embeddings.weight"@),
        or_else(
            read_error(f, file, "fast_norm.weight"@),
            or_else(
                read_error(f, file, "fast_output.weight"@),
                fast_head_dims_error(
                    f16_parts(f, file, "fast_embeddings.weight"@)->Ok_0.0,
                    f16_parts(f, file, "fast_output.weight"@)->Ok_0.0,
                ),
            ),
        ),
    )
}

impl FastArHeadF16Weights {
    /// The fast tables of a model file.
    pub fn from_gguf(gguf: &GgufFile, file: &[u8]) -> (r: Result<FastArHeadF16Weights, InferError>)
        requires
            tensors_inside(gguf@),
        ensures
            match r {
                Ok(w) => fast_head_error(gguf@, file@) is None && is_tensor(
                    w.embeddings,
                    gguf@,
                    file@,
                    "fast_embeddings.weight"@,
                ) && is_tensor(w.norm, gguf@, file@, "fast_norm.weight"@) && is_tensor(
                    w.output,
                    gguf@,
                    file@,
                    "fast_output.weight"@,
                ),
                Err(e) => fast_head_error(gguf@, file@) == Some(e@),
            },
    {
        let embeddings = match F16TensorView::from_gguf(gguf, file, "fast_embeddings.weight") {
            Err(e) => {
                return Err(e);
            },
            Ok(t) => t,
        };
        let norm = match F16TensorView::from_gguf(gguf, file, "fast_norm.weight") {
            Err(e) => {
                return Err(e);
            },
            Ok(t) => t,
        };
        let output = match F16TensorView::from_gguf(gguf, file, "fast_output.weight") {
            Err(e) => {
                return Err(e);
            },
            Ok(t) => t,
        };
        let weights = FastArHeadF16Weights { embeddings, norm, output };
        match weights.validate_dimensions() {
            Err(e) => Err(e),
            Ok(_) => Ok(weights),
        }
    }

    /// Checks the dimensions of the fast tables.
    pub fn validate_dimensions(&self) -> (r: Result<(), InferError>)
        ensures
            is_finding(
                r,
                fast_head_dims_error(self.embeddings@.dimensions, self.output@.dimensions),
            ),
    {
        let embeddings = self.embeddings.dimensions();
        if !is_two(embeddings, 2560, 4096) {
            let a = show_sizes(embeddings);
            return Err(
                InferError::Message(
                    String::from_str("fast_embeddings.weight: expected [2560, 4096], got ").concat(
                        a.as_str(),
                    ),
                ),
            );
        }
        let output = self.output.dimensions();
        if !is_two(output, 2560, 4096) {
            let a = show_sizes(output);
            return Err(
                InferError::Message(
                    String::from_str("fast_output.weight: expected [2560, 4096], got ").concat(
                        a.as_str(),
                    ),
                ),
            );
        }
        Ok(())
    }
}

/// What is wrong with each fast layer of a file, if anything.
pub open spec fn fast_layer_errors(f: FileView, file: Seq<u8>) -> spec_fn(int) -> Option<
    ErrorView,
> {
    |i: int| fast_layer_error(f, file, i as usize)
}

impl FastArWeights {
    /// The weights of the fast transformer of a model file.
    pub fn from_gguf(gguf: &GgufFile, file: &[u8], registry: &TransformerTensorRegistry) -> (r:
        Result<FastArWeights, InferError>)
        requires
            tensors_inside(gguf@),
            registry.complete(),
        ensures
            match r {
                Ok(w) => {
                    &&& w.layers@.len() == 4
                    &&& forall|i: int|
                        0 <= i < 4 ==> is_fast_layer_of(
                            #[trigger] w.layers@[i],
                            gguf@,
                            file@,
                            i as usize,
                        )
                    &&& is_tensor(w.head.embeddings, gguf@, file@, "fast_embeddings.weight"@)
                    &&& is_tensor(w.head.norm, gguf@, file@, "fast_norm.weight"@)
                    &&& is_tensor(w.head.output, gguf@, file@, "fast_output.weight"@)
                    &&& or_else(
                        first_of(fast_layer_errors(gguf@, file@), 0, 4),
                        fast_head_error(gguf@, file@),
                    ) is None
                },
                Err(e) => or_else(
                    first_of(fast_layer_errors(gguf@, file@), 0, 4),
                    fast_head_error(gguf@, file@),
                ) == Some(e@),
            },
    {
        let count: usize = registry.fast_layer_count();
        let ghost f = fast_layer_errors(gguf@, file@);
        let mut layers: Vec<FastArLayerF16Weights> = Vec::new();
        let mut i: usize = 0;
        while i < count
            invariant
                i <= count,
                count == 4,
                tensors_inside(gguf@),
                registry.complete(),
                f == fast_layer_errors(gguf@, file@),
                first_of(f, 0, 4) == first_of(f, i as int, 4),
                layers@.len() == i,
                forall|k: int|
                    0 <= k < i ==> is_fast_layer_of(
                        #[trigger] layers@[k],
                        gguf@,
                        file@,
                        k as usize,
                    ),
            decreases count - i,
        {
            let ghost here = f(i as int);
            match FastArLayerF16Weights::from_gguf_layer(gguf, file, registry, i) {
                Err(e) => {
                    assert(here == Some(e@));
                    return Err(e);
                },
                Ok(w) => {
                    assert(here is None);
                    layers.push(w);
                },
            }
            i = i + 1;
        }
        match FastArHeadF16Weights::from_gguf(gguf, file) {
            Err(e) => Err(e),
            Ok(head) => Ok(FastArWeights { layers, head }),
        }
    }
}

// ---------------------------------------------------------------------
// Logits
// ---------------------------------------------------------------------

/// The weights of the fast transformer as values.
#[derive(Debug)]
pub struct FastArValues<T> {
    pub layers: Vec<FastArLayerValues<T>>,
    pub embeddings: Vec<T>,
    pub norm: Vec<T>,
    pub output: Vec<T>,
}

impl FastArWeights {
    /// The weights as values.
    pub fn values<T: Copy, F: Fn(Op, T, T, T) -> T>(&self, calc: &Calc<T, F>) -> (r: FastArValues<
        T,
    >)
        requires
            calc.works(),
        ensures
            are_values(self.head.embeddings@.values, *calc, r.embeddings@),
            are_values(self.head.norm@.values, *calc, r.norm@),
            are_values(self.head.output@.values, *calc, r.output@),
            r.layers@.len() == self.layers@.len(),
            forall|i: int|
                0 <= i < r.layers@.len() ==> are_layer_values(
                    self.layers@[i],
                    *calc,
                    #[trigger] r.layers@[i],
                ),
    {
        let mut layers: Vec<FastArLayerValues<T>> = Vec::new();
        let mut i: usize = 0;
        while i < self.layers.len()
            invariant
                i <= self.layers@.len(),
                calc.works(),
                layers@.len() == i,
                forall|k: int|
                    0 <= k < i ==> are_layer_values(
                        self.layers@[k],
                        *calc,
                        #[trigger] layers@[k],
                    ),
            decreases self.layers@.len() - i,
        {
            layers.push(self.layers[i].values(calc));
            i = i + 1;
        }
        FastArValues {
            layers,
            embeddings: to_values(self.head.embeddings.values(), calc),
            norm: to_values(self.head.norm.values(), calc),
            output: to_values(self.head.output.values(), calc),
        }
    }
}

/// Whether the values are those of a layer's weights.
pub open spec fn are_layer_values<T: Copy, F: Fn(Op, T, T, T) -> T>(
    w: FastArLayerF16Weights,
    calc: Calc<T, F>,
    v: FastArLayerValues<T>,
) -> bool {
    &&& are_values(w.attention_norm@.values, calc, v.attention_norm@)
    &&& are_values(w.wqkv@.values, calc, v.wqkv@)
    &&& are_values(w.output@.values, calc, v.output@)
    &&& are_values(w.ffn_norm@.values, calc, v.ffn_norm@)
    &&& are_values(w.feed_forward_w1@.values, calc, v.feed_forward_w1@)
    &&& are_values(w.feed_forward_w2@.values, calc, v.feed_forward_w2@)
    &&& are_values(w.feed_forward_w3@.values, calc, v.feed_forward_w3@)
}

/// What is wrong with the input of the fast transformer, if anything.
pub open spec fn prefix_error(
    hidden: nat,
    codes: Seq<u32>,
    graph: DualArGraphSpec,
    embeddings: nat,
    base_text: Seq<char>,
) -> Option<ErrorView> {
    let h = graph.fast.embedding_length as usize;
    if graph.fast_has_project_in {
        Some(message("fast_project_in is not implemented in pure Rust yet"@))
    } else if codes.len() >= graph.num_codebooks {
        Some(
            message(
                "fast prefix too long: "@ + dec(codes.len()) + " codes (max "@ + dec(
                    if graph.num_codebooks == 0 {
                        0
                    } else {
                        (graph.num_codebooks - 1) as nat
                    },
                ) + ")"@,
            ),
        )
    } else if hidden != h {
        Some(mismatch("slow hidden size"@, h as nat, hidden))
    } else {
        or_else(
            if codes.len() == 0 {
                None
            } else {
                lookup_error(embeddings, h, 4096, codes)
            },
            if 1 + codes.len() > graph.fast.context_length {
                Some(
                    message(
                        "fast sequence length "@ + dec(1 + codes.len())
                            + " exceeds context_length "@ + dec(graph.fast.context_length as nat),
                    ),
                )
            } else {
                FastArLayerShape::of(graph.fast).error(base_text)
            },
        )
    }
}

/// The hidden states that the fast transformer starts from: the one it is given, and the rows of
/// the codes so far.
pub open spec fn fast_input<T>(
    hidden: Seq<T>,
    codes: Seq<u32>,
    embeddings: Seq<T>,
    width: int,
) -> Seq<Seq<T>> {
    seq![hidden] + Seq::new(codes.len(), |i: int| row(embeddings, codes[i] as int, width))
}

/// Whether fast layers, from the first on, lead along these lists of hidden states.
pub open spec fn is_fast_run<T: Copy, F: Fn(Op, T, T, T) -> T>(
    layers: Seq<FastArLayerValues<T>>,
    s: FastArLayerShape,
    calc: Calc<T, F>,
    states: Seq<Seq<Seq<T>>>,
) -> bool {
    &&& 0 < states.len() <= layers.len() + 1
    &&& forall|k: int|
        0 <= k < states.len() - 1 ==> layers[k].is_layer(
            s,
            #[trigger] states[k],
            calc,
            states[k + 1],
        )
}

/// How many fast layers are used.
pub open spec fn used_layers(count: nat) -> nat {
    if count < 4 {
        count
    } else {
        4
    }
}

/// Whether the logits come from the last of the hidden states: its norm, times every row.
pub open spec fn are_fast_logits<T: Copy, F: Fn(Op, T, T, T) -> T>(
    w: FastArValues<T>,
    s: FastArLayerShape,
    codebook_size: u32,
    calc: Calc<T, F>,
    last: Seq<T>,
    logits: Seq<T>,
) -> bool {
    exists|normalized: Seq<T>|
        is_norm(last, w.norm@, s.rms_norm_eps, calc, normalized) && #[trigger] is_linear(
            normalized,
            w.output@,
            calc,
            logits,
        ) && logits.len() == codebook_size
}

/// What is wrong with making fast logits, if anything.
pub open spec fn fast_logits_error(
    hidden: usize,
    norm: nat,
    output: nat,
    codebook_size: u32,
) -> Option<ErrorView> {
    or_else(
        norm_error(hidden as nat, norm),
        linear_error(hidden as nat, output, hidden, codebook_size as usize),
    )
}

/// Whether the fast transformer gives these logits.
pub open spec fn prefix_gives<T: Copy, F: Fn(Op, T, T, T) -> T>(
    hidden: Seq<T>,
    codes: Seq<u32>,
    graph: DualArGraphSpec,
    w: FastArValues<T>,
    calc: Calc<T, F>,
    logits: Seq<T>,
) -> bool {
    let s = FastArLayerShape::of(graph.fast);
    exists|states: Seq<Seq<Seq<T>>>|
        {
            &&& #[trigger] is_fast_run(w.layers@, s, calc, states)
            &&& states.len() == used_layers(w.layers@.len()) + 1
            &&& states[0] == fast_input(hidden, codes, w.embeddings@, s.hidden_size as int)
            &&& are_fast_logits(
                w,
                s,
                graph.codebook_size,
                calc,
                states.last().last(),
                logits,
            )
        }
}

/// Whether the fast transformer fails with this error.
pub open spec fn prefix_fails<T: Copy, F: Fn(Op, T, T, T) -> T>(
    hidden: Seq<T>,
    codes: Seq<u32>,
    graph: DualArGraphSpec,
    w: FastArValues<T>,
    base_text: Seq<char>,
    calc: Calc<T, F>,
    e: ErrorView,
) -> bool {
    let s = FastArLayerShape::of(graph.fast);
    let early = prefix_error(hidden.len(), codes, graph, w.embeddings@.len(), base_text);
    if early is Some {
        early == Some(e)
    } else {
        exists|states: Seq<Seq<Seq<T>>>|
            {
                &&& #[trigger] is_fast_run(w.layers@, s, calc, states)
                &&& states[0] == fast_input(hidden, codes, w.embeddings@, s.hidden_size as int)
                &&& if states.len() <= used_layers(w.layers@.len()) {
                    w.layers@[states.len() - 1].layer_error(s, states.last()) == Some(e)
                } else {
                    fast_logits_error(
                        s.hidden_size,
                        w.norm@.len(),
                        w.output@.len(),
                        graph.codebook_size,
                    ) == Some(e)
                }
            }
    }
}

proof fn lemma_fast_run_one<T: Copy, F: Fn(Op, T, T, T) -> T>(
    layers: Seq<FastArLayerValues<T>>,
    s: FastArLayerShape,
    calc: Calc<T, F>,
    states: Seq<Seq<Seq<T>>>,
    next: Seq<Seq<T>>,
)
    requires
        is_fast_run(layers, s, calc, states),
        states.len() <= layers.len(),
        layers[states.len() - 1].is_layer(s, states.last(), calc, next),
    ensures
        is_fast_run(layers, s, calc, states.push(next)),
{
    let more = states.push(next);
    assert forall|k: int| 0 <= k < more.len() - 1 implies layers[k].is_layer(
        s,
        #[trigger] more[k],
        calc,
        more[k + 1],
    ) by {
        assert(more[k] == states[k]);
        if k < states.len() - 1 {
            assert(more[k + 1] == states[k + 1]);
        }
    }
}

fn start_sequence<T: Copy>(
    slow_hidden: &[T],
    prefix_codes: &[u32],
    embeddings: &[T],
    hidden_size: usize,
) -> (r: Result<Vec<Vec<T>>, InferError>)
    requires
        slow_hidden@.len() == hidden_size,
    ensures
        match r {
            Ok(v) => (prefix_codes@.len() == 0 || lookup_error(
                embeddings@.len(),
                hidden_size,
                4096,
                prefix_codes@,
            ) is None) && lists(v@) == fast_input(
                slow_hidden@,
                prefix_codes@,
                embeddings@,
                hidden_size as int,
            ) && v@.len() == 1 + prefix_codes@.len(),
            Err(e) => prefix_codes@.len() > 0 && lookup_error(
                embeddings@.len(),
                hidden_size,
                4096,
                prefix_codes@,
            ) == Some(e@),
        },
{
    let mut sequence: Vec<Vec<T>> = Vec::new();
    sequence.push(slice_to_vec(slow_hidden));
    if prefix_codes.len() > 0 {
        match embedding_lookup_rows(embeddings, hidden_size, 4096, prefix_codes) {
            Err(e) => {
                return Err(e);
            },
            Ok(rows) => {
                let mut rows = rows;
                sequence.append(&mut rows);
            },
        }
    }
    assert(lists(sequence@) =~= fast_input(
        slow_hidden@,
        prefix_codes@,
        embeddings@,
        hidden_size as int,
    ));
    Ok(sequence)
}

/// The logits of the next code, from the slow transformer's hidden state and the codes so far.
pub fn forward_codebook_prefix<T: Copy, F: Fn(Op, T, T, T) -> T>(
    slow_hidden: &[T],
    prefix_codes: &[u32],
    graph: &DualArGraphSpec,
    weights: &FastArValues<T>,
    base_text: &str,
    calc: &Calc<T, F>,
) -> (r: Result<Vec<T>, InferError>)
    requires
        calc.works(),
    ensures
        match r {
            Ok(logits) => prefix_error(
                slow_hidden@.len(),
                prefix_codes@,
                *graph,
                weights.embeddings@.len(),
                base_text@,
            ) is None && prefix_gives(
                slow_hidden@,
                prefix_codes@,
                *graph,
                *weights,
                *calc,
                logits@,
            ),
            Err(e) => prefix_fails(
                slow_hidden@,
                prefix_codes@,
                *graph,
                *weights,
                base_text@,
                *calc,
                e@,
            ),
        },
{
    if graph.fast_has_project_in {
        return Err(InferError::text("fast_project_in is not implemented in pure Rust yet"));
    }
    let num_codebooks: usize = graph.num_codebooks as usize;
    if prefix_codes.len() >= num_codebooks {
        let most: usize = if num_codebooks == 0 {
            0
        } else {
            num_codebooks - 1
        };
        let a = dec_usize(prefix_codes.len());
        let b = dec_usize(most);
        return Err(
            InferError::Message(
                String::from_str("fast prefix too long: ").concat(a.as_str()).concat(
                    " codes (max ",
                ).concat(b.as_str()).concat(")"),
            ),
        );
    }
    let hidden_size: usize = graph.fast.embedding_length as usize;
    let found: usize = slow_hidden.len();
    if found != hidden_size {
        return Err(size_mismatch("slow hidden size", hidden_size, found));
    }
    let sequence = match start_sequence(
        slow_hidden,
        prefix_codes,
        weights.embeddings.as_slice(),
        hidden_size,
    ) {
        Err(e) => {
            return Err(e);
        },
        Ok(v) => v,
    };
    let count: usize = sequence.len();
    if count as u64 > graph.fast.context_length as u64 {
        let a = dec_usize(count);
        let b = dec_u64(graph.fast.context_length as u64);
        return Err(
            InferError::Message(
                String::from_str("fast sequence length ").concat(a.as_str()).concat(
                    " exceeds context_length ",
                ).concat(b.as_str()),
            ),
        );
    }
    let shape = match FastArLayerShape::from_ar_graph_spec(&graph.fast) {
        Err(e) => {
            return Err(e);
        },
        Ok(s) => s,
    };
    match shape.validate(base_text) {
        Err(e) => {
            return Err(e);
        },
        Ok(_) => {},
    }
    let used: usize = if weights.layers.len() < 4 {
        weights.layers.len()
    } else {
        4
    };
    let mut hidden = sequence;
    let ghost first = lists(hidden@);
    let ghost mut states: Seq<Seq<Seq<T>>> = seq![first];
    let mut k: usize = 0;
    while k < used
        invariant
            k <= used,
            used == used_layers(weights.layers@.len()),
            calc.works(),
            shape == FastArLayerShape::of(graph.fast),
            shape.error(base_text@) is None,
            prefix_error(
                slow_hidden@.len(),
                prefix_codes@,
                *graph,
                weights.embeddings@.len(),
                base_text@,
            ) is None,
            first == fast_input(
                slow_hidden@,
                prefix_codes@,
                weights.embeddings@,
                shape.hidden_size as int,
            ),
            is_fast_run(weights.layers@, shape, *calc, states),
            states.len() == k + 1,
            states[0] == first,
            states.last() == lists(hidden@),
            hidden@.len() > 0,
            k > 0 ==> forall|i: int|
                0 <= i < hidden@.len() ==> (#[trigger] hidden@[i])@.len() == shape.hidden_size,
        decreases used - k,
    {
        match weights.layers[k].forward_prefill(shape, &hidden, base_text, calc) {
            Err(e) => {
                assert(prefix_fails(
                    slow_hidden@,
                    prefix_codes@,
                    *graph,
                    *weights,
                    base_text@,
                    *calc,
                    e@,
                ));
                return Err(e);
            },
            Ok(v) => {
                proof {
                    lemma_fast_run_one(weights.layers@, shape, *calc, states, lists(v@));
                    states = states.push(lists(v@));
                }
                hidden = v;
            },
        }
        k = k + 1;
    }
    let last = &hidden[hidden.len() - 1];
    proof {
        assert(states.last().last() == last@);
        if used == 0 {
            lemma_input_widths(
                slow_hidden@,
                prefix_codes@,
                weights.embeddings@,
                shape.hidden_size,
            );
            assert(states.last() == first);
        }
        assert(last@.len() == shape.hidden_size);
    }
    let normalized = match rms_norm_f32(
        last.as_slice(),
        weights.norm.as_slice(),
        shape.rms_norm_eps,
        calc,
    ) {
        Err(e) => {
            assert(prefix_fails(
                slow_hidden@,
                prefix_codes@,
                *graph,
                *weights,
                base_text@,
                *calc,
                e@,
            ));
            return Err(e);
        },
        Ok(v) => v,
    };
    match CpuMatmulBackend::new().linear(
        normalized.as_slice(),
        weights.output.as_slice(),
        hidden_size,
        graph.codebook_size as usize,
        calc,
    ) {
        Err(e) => {
            assert(prefix_fails(
                slow_hidden@,
                prefix_codes@,
                *graph,
                *weights,
                base_text@,
                *calc,
                e@,
            ));
            Err(e)
        },
        Ok(logits) => {
            proof {
                assert(is_linear(normalized@, weights.output@, *calc, logits@));
                assert(are_fast_logits(
                    *weights,
                    shape,
                    graph.codebook_size,
                    *calc,
                    states.last().last(),
                    logits@,
                ));
            }
            Ok(logits)
        },
    }
}

proof fn lemma_input_widths<T>(
    hidden: Seq<T>,
    codes: Seq<u32>,
    embeddings: Seq<T>,
    width: usize,
)
    requires
        hidden.len() == width,
        codes.len() > 0 ==> lookup_error(embeddings.len(), width, 4096, codes) is None,
    ensures
        forall|i: int|
            0 <= i < fast_input(hidden, codes, embeddings, width as int).len() ==> (
            #[trigger] fast_input(hidden, codes, embeddings, width as int)[i]).len() == width,
{
    let all = fast_input(hidden, codes, embeddings, width as int);
    assert forall|i: int| 0 <= i < all.len() implies (#[trigger] all[i]).len() == width by {
        if i > 0 {
            let c = codes[i - 1] as int;
            crate::tensor::lemma_lookup_inside(width, 4096, codes, embeddings.len(), i - 1);
            crate::arith::lemma_rows_monotone(c + 1, 4096, width as int);
            crate::arith::lemma_rows_monotone(0, c, width as int);
            crate::arith::lemma_next_row(c, width as int);
            vstd::arithmetic::mul::lemma_mul_is_commutative(width as int, 4096);
        }
    }
}

// ---------------------------------------------------------------------
// The codes of a frame
// ---------------------------------------------------------------------

/// The codes of one frame, as far as they are known.
#[derive(Debug)]
pub struct CodebookRun {
    codebook_size: u32,
    num_codebooks: u32,
    codes: Vec<u32>,
}

/// The codes of a frame as mathematical values.
pub ghost struct CodebookView {
    pub codebook_size: u32,
    pub num_codebooks: u32,
    pub codes: Seq<u32>,
}

impl View for CodebookRun {
    type V = CodebookView;

    closed spec fn view(&self) -> CodebookView {
        CodebookView {
            codebook_size: self.codebook_size,
            num_codebooks: self.num_codebooks,
            codes: self.codes@,
        }
    }
}

impl CodebookView {
    /// Whether every code belongs to its codebook, and there is one at least and no more than
    /// there are codebooks.
    pub open spec fn fits(self) -> bool {
        &&& self.codes.len() > 0
        &&& self.codes.len() == 1 || self.codes.len() <= self.num_codebooks
        &&& forall|i: int|
            0 <= i < self.codes.len() ==> #[trigger] self.codes[i] < self.codebook_size
    }
}

impl CodebookRun {
    /// A frame that starts with the code of a speech token.
    pub fn new(semantic_code: u32, graph: &DualArGraphSpec) -> (r: Result<CodebookRun, InferError>)
        ensures
            match r {
                Ok(c) => {
                    &&& semantic_code < graph.codebook_size
                    &&& c@ == (CodebookView {
                        codebook_size: graph.codebook_size,
                        num_codebooks: graph.num_codebooks,
                        codes: seq![semantic_code],
                    })
                    &&& c@.fits()
                },
                Err(e) => semantic_code >= graph.codebook_size && e@ == message(
                    "semantic_code "@ + dec(semantic_code as nat) + " >= codebook_size "@ + dec(
                        graph.codebook_size as nat,
                    ),
                ),
            },
    {
        if semantic_code >= graph.codebook_size {
            let a = dec_u64(semantic_code as u64);
            let b = dec_u64(graph.codebook_size as u64);
            return Err(
                InferError::Message(
                    String::from_str("semantic_code ").concat(a.as_str()).concat(
                        " >= codebook_size ",
                    ).concat(b.as_str()),
                ),
            );
        }
        let mut codes: Vec<u32> = Vec::new();
        codes.push(semantic_code);
        assert(codes@ =~= seq![semantic_code]);
        Ok(
            CodebookRun {
                codebook_size: graph.codebook_size,
                num_codebooks: graph.num_codebooks,
                codes,
            },
        )
    }

    /// The codes that the next one follows, or none where the frame is complete.
    pub fn next_prefix(&self) -> (r: Option<&[u32]>)
        ensures
            match r {
                Some(p) => self@.codes.len() < self@.num_codebooks && p@ == self@.codes,
                None => self@.codes.len() >= self@.num_codebooks,
            },
    {
        if (self.codes.len() as u64) < self.num_codebooks as u64 {
            Some(self.codes.as_slice())
        } else {
            None
        }
    }

    /// Takes the code that was chosen for the next codebook.
    pub fn take(&mut self, token: u32) -> (r: Result<(), InferError>)
        requires
            old(self)@.fits(),
            old(self)@.codes.len() < old(self)@.num_codebooks,
        ensures
            final(self)@.fits(),
            match r {
                Ok(_) => token < old(self)@.codebook_size && final(self)@ == (CodebookView {
                    codes: old(self)@.codes.push(token),
                    ..old(self)@
                }),
                Err(e) => token >= old(self)@.codebook_size && final(self)@ == old(self)@ && e@
                    == message(
                    "sampled codebook token "@ + dec(token as nat) + " >= codebook_size "@ + dec(
                        old(self)@.codebook_size as nat,
                    ),
                ),
            },
    {
        if token >= self.codebook_size {
            let a = dec_u64(token as u64);
            let b = dec_u64(self.codebook_size as u64);
            return Err(
                InferError::Message(
                    String::from_str("sampled codebook token ").concat(a.as_str()).concat(
                        " >= codebook_size ",
                    ).concat(b.as_str()),
                ),
            );
        }
        self.codes.push(token);
        Ok(())
    }

    /// The codes of the frame.
    pub fn finish(self) -> (r: Vec<u32>)
        ensures
            r@ == self@.codes,
    {
        self.codes
    }
}

} // verus!
