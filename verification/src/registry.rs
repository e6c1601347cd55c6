//! The tensors a speech transformer must have.
pub use crate::graph::{
    ArGraphSpec, DualArGraphSpec, KvCacheSpec, ATTENTION_HEADS, ATTENTION_OUT, CODEBOOK_EMBEDDING_SIZE,
    CODEBOOK_SIZE, FAST_AR_LAYERS, FAST_CONTEXT_LENGTH, FAST_VOCAB_SIZE, FFN_SIZE, HEAD_DIM,
    HIDDEN_SIZE, KV_HEADS, NUM_CODEBOOKS, QK_NORM_SIZE, SEMANTIC_BEGIN_ID, SEMANTIC_END_ID,
    SLOW_AR_LAYERS, SLOW_CONTEXT_LENGTH, TEXT_VOCAB_SIZE, WQKV_OUT,
};
use crate::error::{message, ErrorView, InferError};
use crate::gguf::{copy_tensors, ggml_name, tensor_views, GgmlType, GgufFile, GgufTensorInfo, TensorView};
use crate::gguf_summary::{metadata_value, value_of};
use crate::graph::{divides_by_no_heads, graph_of, FloatReadings};
use crate::number::{parse_usize, unsigned_value};
use crate::text::{
    chars_occur_at, dec, dec_usize, from_chars, join_strings, joined, list_text, longs, occurs_at,
    set_text, show_longs, show_size_set, sizes, str_eq, strings, to_chars,
};
use crate::tokenizer_s2cpp::next_at;
use vstd::hash_map::StringHashMap;
use vstd::prelude::*;
use vstd::slice::{slice_subrange, slice_to_vec};
use vstd::string::*;

verus! {

/// What a tensor is used for.
#[derive(Debug, Clone, Copy, PartialEq, Eq, Structural)]
pub enum TensorRole {
    Embedding,
    AttentionNorm,
    AttentionQNorm,
    AttentionKNorm,
    AttentionWqkv,
    AttentionOutput,
    FfnNorm,
    FeedForwardW1,
    FeedForwardW2,
    FeedForwardW3,
    OutputNorm,
    FastEmbedding,
    FastOutput,
    CodebookEmbedding,
}

/// A tensor that a model must have.
#[derive(Debug)]
pub struct TensorSpec {
    pub name: String,
    pub role: TensorRole,
    pub ggml_type: GgmlType,
    pub dimensions: Vec<u64>,
}

/// A tensor that a model must have, as a mathematical value.
pub ghost struct TensorSpecView {
    pub name: Seq<char>,
    pub role: TensorRole,
    pub ggml_type: GgmlType,
    pub dimensions: Seq<u64>,
}

impl View for TensorSpec {
    type V = TensorSpecView;

    open spec fn view(&self) -> TensorSpecView {
        TensorSpecView {
            name: self.name@,
            role: self.role,
            ggml_type: self.ggml_type,
            dimensions: self.dimensions@,
        }
    }
}

/// Required tensors as mathematical values.
pub open spec fn spec_views(specs: Seq<TensorSpec>) -> Seq<TensorSpecView> {
    specs.map_values(|s: TensorSpec| s@)
}

/// A required tensor of half-precision numbers.
pub open spec fn half_tensor(name: Seq<char>, role: TensorRole, dimensions: Seq<u64>)
    -> TensorSpecView {
    TensorSpecView { name, role, ggml_type: GgmlType::F16, dimensions }
}

/// Whether a tensor has the type and the dimensions of a required one.
pub open spec fn satisfies(tensor: TensorView, required: TensorSpecView) -> bool {
    tensor.ggml_type == required.ggml_type && tensor.dimensions == required.dimensions
}

/// Whether two lists of dimensions are the same.
pub fn same_dimensions(a: &[u64], b: &[u64]) -> (r: bool)
    ensures
        r == (a@ == b@),
{
    if a.len() != b.len() {
        return false;
    }
    let mut i: usize = 0;
    while i < a.len()
        invariant
            i <= a@.len(),
            a@.len() == b@.len(),
            forall|k: int| 0 <= k < i ==> a@[k] == b@[k],
        decreases a@.len() - i,
    {
        if a[i] != b[i] {
            return false;
        }
        i = i + 1;
    }
    assert(a@ =~= b@);
    true
}

impl TensorSpec {
    /// A required tensor of half-precision numbers.
    pub fn new(name: String, role: TensorRole, dimensions: Vec<u64>) -> (r: TensorSpec)
        ensures
            r@ == half_tensor(name@, role, dimensions@),
    {
        TensorSpec { name, role, ggml_type: GgmlType::F16, dimensions }
    }

    /// Whether a tensor has the required type and dimensions.
    pub fn matches(&self, tensor: &GgufTensorInfo) -> (r: bool)
        ensures
            r == satisfies(tensor@, self@),
    {
        tensor.ggml_type == self.ggml_type && same_dimensions(
            tensor.dimensions.as_slice(),
            self.dimensions.as_slice(),
        )
    }
}

fn one(a: u64) -> (r: Vec<u64>)
    ensures
        r@ == seq![a],
{
    let mut v: Vec<u64> = Vec::new();
    v.push(a);
    assert(v@ =~= seq![a]);
    v
}

fn two(a: u64, b: u64) -> (r: Vec<u64>)
    ensures
        r@ == seq![a, b],
{
    let mut v: Vec<u64> = Vec::new();
    v.push(a);
    v.push(b);
    assert(v@ =~= seq![a, b]);
    v
}

/// The name of a slow layer's tensor.
pub open spec fn slow_name(layer: usize, tail: Seq<char>) -> Seq<char> {
    "layers."@ + dec(layer as nat) + tail
}

/// The name of a fast layer's tensor.
pub open spec fn fast_name(layer: usize, tail: Seq<char>) -> Seq<char> {
    "fast_layers."@ + dec(layer as nat) + tail
}

fn layer_name(prefix: &str, layer: usize, tail: &str) -> (r: String)
    ensures
        r@ == prefix@ + dec(layer as nat) + tail@,
{
    let digits = dec_usize(layer);
    String::from_str(prefix).concat(digits.as_str()).concat(tail)
}

/// The names of a slow layer's tensors.
#[derive(Debug)]
pub struct SlowArLayerWeights {
    pub layer: usize,
    pub attention_q_norm: String,
    pub attention_k_norm: String,
    pub attention_wqkv: String,
    pub attention_output: String,
    pub attention_norm: String,
    pub ffn_norm: String,
    pub feed_forward_w1: String,
    pub feed_forward_w2: String,
    pub feed_forward_w3: String,
}

/// The tensors that a slow layer must have.
pub open spec fn slow_layer_tensors(layer: usize) -> Seq<TensorSpecView> {
    seq![
        half_tensor(slow_name(layer, ".attention.q_norm.weight"@), TensorRole::AttentionQNorm, seq![128u64]),
        half_tensor(slow_name(layer, ".attention.k_norm.weight"@), TensorRole::AttentionKNorm, seq![128u64]),
        half_tensor(slow_name(layer, ".attention.wqkv.weight"@), TensorRole::AttentionWqkv, seq![2560u64, 6144]),
        half_tensor(slow_name(layer, ".attention.wo.weight"@), TensorRole::AttentionOutput, seq![4096u64, 2560]),
        half_tensor(slow_name(layer, ".attention_norm.weight"@), TensorRole::AttentionNorm, seq![2560u64]),
        half_tensor(slow_name(layer, ".ffn_norm.weight"@), TensorRole::FfnNorm, seq![2560u64]),
        half_tensor(slow_name(layer, ".feed_forward.w1.weight"@), TensorRole::FeedForwardW1, seq![2560u64, 9728]),
        half_tensor(slow_name(layer, ".feed_forward.w2.weight"@), TensorRole::FeedForwardW2, seq![9728u64, 2560]),
        half_tensor(slow_name(layer, ".feed_forward.w3.weight"@), TensorRole::FeedForwardW3, seq![2560u64, 9728]),
    ]
}

/// Whether the names are those of a slow layer's tensors.
pub open spec fn names_slow_layer(w: SlowArLayerWeights, layer: usize) -> bool {
    &&& w.layer == layer
    &&& w.attention_q_norm@ == slow_name(layer, ".attention.q_norm.weight"@)
    &&& w.attention_k_norm@ == slow_name(layer, ".attention.k_norm.weight"@)
    &&& w.attention_wqkv@ == slow_name(layer, ".attention.wqkv.weight"@)
    &&& w.attention_output@ == slow_name(layer, ".attention.wo.weight"@)
    &&& w.attention_norm@ == slow_name(layer, ".attention_norm.weight"@)
    &&& w.ffn_norm@ == slow_name(layer, ".ffn_norm.weight"@)
    &&& w.feed_forward_w1@ == slow_name(layer, ".feed_forward.w1.weight"@)
    &&& w.feed_forward_w2@ == slow_name(layer, ".feed_forward.w2.weight"@)
    &&& w.feed_forward_w3@ == slow_name(layer, ".feed_forward.w3.weight"@)
}

impl SlowArLayerWeights {
    /// The tensors that a slow layer must have.
    pub fn spec(layer: usize) -> (r: Vec<TensorSpec>)
        ensures
            spec_views(r@) == slow_layer_tensors(layer),
    {
        let mut out: Vec<TensorSpec> = Vec::new();
        out.push(
            TensorSpec::new(
                layer_name("layers.", layer, ".attention.q_norm.weight"),
                TensorRole::AttentionQNorm,
                one(128),
            ),
        );
        out.push(
            TensorSpec::new(
                layer_name("layers.", layer, ".attention.k_norm.weight"),
                TensorRole::AttentionKNorm,
                one(128),
            ),
        );
        out.push(
            TensorSpec::new(
                layer_name("layers.", layer, ".attention.wqkv.weight"),
                TensorRole::AttentionWqkv,
                two(2560, 6144),
            ),
        );
        out.push(
            TensorSpec::new(
                layer_name("layers.", layer, ".attention.wo.weight"),
                TensorRole::AttentionOutput,
                two(4096, 2560),
            ),
        );
        out.push(
            TensorSpec::new(
                layer_name("layers.", layer, ".attention_norm.weight"),
                TensorRole::AttentionNorm,
                one(2560),
            ),
        );
        out.push(
            TensorSpec::new(
                layer_name("layers.", layer, ".ffn_norm.weight"),
                TensorRole::FfnNorm,
                one(2560),
            ),
        );
        out.push(
            TensorSpec::new(
                layer_name("layers.", layer, ".feed_forward.w1.weight"),
                TensorRole::FeedForwardW1,
                two(2560, 9728),
            ),
        );
        out.push(
            TensorSpec::new(
                layer_name("layers.", layer, ".feed_forward.w2.weight"),
                TensorRole::FeedForwardW2,
                two(9728, 2560),
            ),
        );
        out.push(
            TensorSpec::new(
                layer_name("layers.", layer, ".feed_forward.w3.weight"),
                TensorRole::FeedForwardW3,
                two(2560, 9728),
            ),
        );
        assert(spec_views(out@) =~= slow_layer_tensors(layer));
        out
    }

    /// The names of a slow layer's tensors.
    pub fn names(layer: usize) -> (r: SlowArLayerWeights)
        ensures
            names_slow_layer(r, layer),
    {
        SlowArLayerWeights {
            layer,
            attention_q_norm: layer_name("layers.", layer, ".attention.q_norm.weight"),
            attention_k_norm: layer_name("layers.", layer, ".attention.k_norm.weight"),
            attention_wqkv: layer_name("layers.", layer, ".attention.wqkv.weight"),
            attention_output: layer_name("layers.", layer, ".attention.wo.weight"),
            attention_norm: layer_name("layers.", layer, ".attention_norm.weight"),
            ffn_norm: layer_name("layers.", layer, ".ffn_norm.weight"),
            feed_forward_w1: layer_name("layers.", layer, ".feed_forward.w1.weight"),
            feed_forward_w2: layer_name("layers.", layer, ".feed_forward.w2.weight"),
            feed_forward_w3: layer_name("layers.", layer, ".feed_forward.w3.weight"),
        }
    }
}

/// The names of a fast layer's tensors.
#[derive(Debug)]
pub struct FastArLayerWeights {
    pub layer: usize,
    pub attention_wqkv: String,
    pub attention_output: String,
    pub attention_norm: String,
    pub ffn_norm: String,
    pub feed_forward_w1: String,
    pub feed_forward_w2: String,
    pub feed_forward_w3: String,
}

/// The tensors that a fast layer must have.
pub open spec fn fast_layer_tensors(layer: usize) -> Seq<TensorSpecView> {
    seq![
        half_tensor(fast_name(layer, ".attention.wqkv.weight"@), TensorRole::AttentionWqkv, seq![2560u64, 6144]),
        half_tensor(fast_name(layer, ".attention.wo.weight"@), TensorRole::AttentionOutput, seq![4096u64, 2560]),
        half_tensor(fast_name(layer, ".attention_norm.weight"@), TensorRole::AttentionNorm, seq![2560u64]),
        half_tensor(fast_name(layer, ".ffn_norm.weight"@), TensorRole::FfnNorm, seq![2560u64]),
        half_tensor(fast_name(layer, ".feed_forward.w1.weight"@), TensorRole::FeedForwardW1, seq![2560u64, 9728]),
        half_tensor(fast_name(layer, ".feed_forward.w2.weight"@), TensorRole::FeedForwardW2, seq![9728u64, 2560]),
        half_tensor(fast_name(layer, ".feed_forward.w3.weight"@), TensorRole::FeedForwardW3, seq![2560u64, 9728]),
    ]
}

/// Whether the names are those of a fast layer's tensors.
pub open spec fn names_fast_layer(w: FastArLayerWeights, layer: usize) -> bool {
    &&& w.layer == layer
    &&& w.attention_wqkv@ == fast_name(layer, ".attention.wqkv.weight"@)
    &&& w.attention_output@ == fast_name(layer, ".attention.wo.weight"@)
    &&& w.attention_norm@ == fast_name(layer, ".attention_norm.weight"@)
    &&& w.ffn_norm@ == fast_name(layer, ".ffn_norm.weight"@)
    &&& w.feed_forward_w1@ == fast_name(layer, ".feed_forward.w1.weight"@)
    &&& w.feed_forward_w2@ == fast_name(layer, ".feed_forward.w2.weight"@)
    &&& w.feed_forward_w3@ == fast_name(layer, ".feed_forward.w3.weight"@)
}

impl FastArLayerWeights {
    /// The tensors that a fast layer must have.
    pub fn spec(layer: usize) -> (r: Vec<TensorSpec>)
        ensures
            spec_views(r@) == fast_layer_tensors(layer),
    {
        let mut out: Vec<TensorSpec> = Vec::new();
        out.push(
            TensorSpec::new(
                layer_name("fast_layers.", layer, ".attention.wqkv.weight"),
                TensorRole::AttentionWqkv,
                two(2560, 6144),
            ),
        );
        out.push(
            TensorSpec::new(
                layer_name("fast_layers.", layer, ".attention.wo.weight"),
                TensorRole::AttentionOutput,
                two(4096, 2560),
            ),
        );
        out.push(
            TensorSpec::new(
                layer_name("fast_layers.", layer, ".attention_norm.weight"),
                TensorRole::AttentionNorm,
                one(2560),
            ),
        );
        out.push(
            TensorSpec::new(
                layer_name("fast_layers.", layer, ".ffn_norm.weight"),
                TensorRole::FfnNorm,
                one(2560),
            ),
        );
        out.push(
            TensorSpec::new(
                layer_name("fast_layers.", layer, ".feed_forward.w1.weight"),
                TensorRole::FeedForwardW1,
                two(2560, 9728),
            ),
        );
        out.push(
            TensorSpec::new(
                layer_name("fast_layers.", layer, ".feed_forward.w2.weight"),
                TensorRole::FeedForwardW2,
                two(9728, 2560),
            ),
        );
        out.push(
            TensorSpec::new(
                layer_name("fast_layers.", layer, ".feed_forward.w3.weight"),
                TensorRole::FeedForwardW3,
                two(2560, 9728),
            ),
        );
        assert(spec_views(out@) =~= fast_layer_tensors(layer));
        out
    }

    /// The names of a fast layer's tensors.
    pub fn names(layer: usize) -> (r: FastArLayerWeights)
        ensures
            names_fast_layer(r, layer),
    {
        FastArLayerWeights {
            layer,
            attention_wqkv: layer_name("fast_layers.", layer, ".attention.wqkv.weight"),
            attention_output: layer_name("fast_layers.", layer, ".attention.wo.weight"),
            attention_norm: layer_name("fast_layers.", layer, ".attention_norm.weight"),
            ffn_norm: layer_name("fast_layers.", layer, ".ffn_norm.weight"),
            feed_forward_w1: layer_name("fast_layers.", layer, ".feed_forward.w1.weight"),
            feed_forward_w2: layer_name("fast_layers.", layer, ".feed_forward.w2.weight"),
            feed_forward_w3: layer_name("fast_layers.", layer, ".feed_forward.w3.weight"),
        }
    }
}

/// The tensors that a model must have outside its layers.
pub open spec fn root_tensors() -> Seq<TensorSpecView> {
    seq![
        half_tensor("codebook_embeddings.weight"@, TensorRole::CodebookEmbedding, seq![2560u64, 40960]),
        half_tensor("embeddings.weight"@, TensorRole::Embedding, seq![2560u64, 155776]),
        half_tensor("fast_embeddings.weight"@, TensorRole::FastEmbedding, seq![2560u64, 4096]),
        half_tensor("fast_output.weight"@, TensorRole::FastOutput, seq![2560u64, 4096]),
        half_tensor("fast_norm.weight"@, TensorRole::OutputNorm, seq![2560u64]),
        half_tensor("norm.weight"@, TensorRole::OutputNorm, seq![2560u64]),
    ]
}

/// The tensors that a model must have outside its layers.
pub fn root_specs() -> (r: Vec<TensorSpec>)
    ensures
        spec_views(r@) == root_tensors(),
{
    let mut out: Vec<TensorSpec> = Vec::new();
    out.push(
        TensorSpec::new(
            String::from_str("codebook_embeddings.weight"),
            TensorRole::CodebookEmbedding,
            two(2560, 40960),
        ),
    );
    out.push(
        TensorSpec::new(
            String::from_str("embeddings.weight"),
            TensorRole::Embedding,
            two(2560, 155776),
        ),
    );
    out.push(
        TensorSpec::new(
            String::from_str("fast_embeddings.weight"),
            TensorRole::FastEmbedding,
            two(2560, 4096),
        ),
    );
    out.push(
        TensorSpec::new(
            String::from_str("fast_output.weight"),
            TensorRole::FastOutput,
            two(2560, 4096),
        ),
    );
    out.push(
        TensorSpec::new(
            String::from_str("fast_norm.weight"),
            TensorRole::OutputNorm,
            one(2560),
        ),
    );
    out.push(
        TensorSpec::new(
            String::from_str("norm.weight"),
            TensorRole::OutputNorm,
            one(2560),
        ),
    );
    assert(spec_views(out@) =~= root_tensors());
    out
}

/// The tensors of the first `n` slow layers.
pub open spec fn slow_tensors(n: nat) -> Seq<TensorSpecView>
    decreases n,
{
    if n == 0 {
        Seq::empty()
    } else {
        slow_tensors((n - 1) as nat) + slow_layer_tensors((n - 1) as usize)
    }
}

/// The tensors of the first `n` fast layers.
pub open spec fn fast_tensors(n: nat) -> Seq<TensorSpecView>
    decreases n,
{
    if n == 0 {
        Seq::empty()
    } else {
        fast_tensors((n - 1) as nat) + fast_layer_tensors((n - 1) as usize)
    }
}

/// The tensors that a model must have.
pub open spec fn required_tensors() -> Seq<TensorSpecView> {
    root_tensors() + slow_tensors(36) + fast_tensors(4)
}

/// The tensors that a model must have.
pub fn required_specs() -> (r: Vec<TensorSpec>)
    ensures
        spec_views(r@) == required_tensors(),
{
    let mut out = root_specs();
    let mut layer: usize = 0;
    assert(root_tensors() + Seq::<TensorSpecView>::empty() =~= root_tensors());
    while layer < SLOW_AR_LAYERS
        invariant
            layer <= SLOW_AR_LAYERS,
            spec_views(out@) == root_tensors() + slow_tensors(layer as nat),
        decreases SLOW_AR_LAYERS - layer,
    {
        let mut more = SlowArLayerWeights::spec(layer);
        let ghost before = out@;
        let ghost added = more@;
        out.append(&mut more);
        assert(spec_views(out@) =~= spec_views(before) + spec_views(added));
        assert(root_tensors() + slow_tensors(layer as nat) + slow_layer_tensors(layer)
            =~= root_tensors() + (slow_tensors(layer as nat) + slow_layer_tensors(layer)));
        layer = layer + 1;
    }
    let mut layer: usize = 0;
    assert(root_tensors() + slow_tensors(36) + Seq::<TensorSpecView>::empty() =~= root_tensors()
        + slow_tensors(36));
    while layer < FAST_AR_LAYERS
        invariant
            layer <= FAST_AR_LAYERS,
            spec_views(out@) == root_tensors() + slow_tensors(36) + fast_tensors(layer as nat),
        decreases FAST_AR_LAYERS - layer,
    {
        let mut more = FastArLayerWeights::spec(layer);
        let ghost before = out@;
        let ghost added = more@;
        out.append(&mut more);
        assert(spec_views(out@) =~= spec_views(before) + spec_views(added));
        assert(root_tensors() + slow_tensors(36) + fast_tensors(layer as nat) + fast_layer_tensors(
            layer,
        ) =~= root_tensors() + slow_tensors(36) + (fast_tensors(layer as nat)
            + fast_layer_tensors(layer)));
        layer = layer + 1;
    }
    out
}

proof fn lemma_slow_count(n: nat)
    ensures
        slow_tensors(n).len() == 9 * n,
    decreases n,
{
    if n > 0 {
        lemma_slow_count((n - 1) as nat);
    }
}

proof fn lemma_fast_count(n: nat)
    ensures
        fast_tensors(n).len() == 7 * n,
    decreases n,
{
    if n > 0 {
        lemma_fast_count((n - 1) as nat);
    }
}

/// The required tensors are the six outside the layers, nine for each slow layer and seven for
/// each fast one.
pub proof fn required_tensor_count()
    ensures
        required_tensors().len() == 6 + 9 * 36 + 7 * 4,
{
    lemma_slow_count(36);
    lemma_fast_count(4);
}

/// The names of a slow layer are those of the tensors that it must have.
pub proof fn slow_names_are_required(w: SlowArLayerWeights, layer: usize)
    requires
        names_slow_layer(w, layer),
    ensures
        w.layer == layer,
        slow_layer_tensors(layer)[0].name == w.attention_q_norm@,
        slow_layer_tensors(layer)[1].name == w.attention_k_norm@,
        slow_layer_tensors(layer)[2].name == w.attention_wqkv@,
        slow_layer_tensors(layer)[3].name == w.attention_output@,
        slow_layer_tensors(layer)[4].name == w.attention_norm@,
        slow_layer_tensors(layer)[5].name == w.ffn_norm@,
        slow_layer_tensors(layer)[6].name == w.feed_forward_w1@,
        slow_layer_tensors(layer)[7].name == w.feed_forward_w2@,
        slow_layer_tensors(layer)[8].name == w.feed_forward_w3@,
{
}

/// The names of a fast layer are those of the tensors that it must have.
pub proof fn fast_names_are_required(w: FastArLayerWeights, layer: usize)
    requires
        names_fast_layer(w, layer),
    ensures
        w.layer == layer,
        fast_layer_tensors(layer)[0].name == w.attention_wqkv@,
        fast_layer_tensors(layer)[1].name == w.attention_output@,
        fast_layer_tensors(layer)[2].name == w.attention_norm@,
        fast_layer_tensors(layer)[3].name == w.ffn_norm@,
        fast_layer_tensors(layer)[4].name == w.feed_forward_w1@,
        fast_layer_tensors(layer)[5].name == w.feed_forward_w2@,
        fast_layer_tensors(layer)[6].name == w.feed_forward_w3@,
{
}

// ---------------------------------------------------------------------
// Tensors by name
// ---------------------------------------------------------------------

/// Under each name the position of the last of the first `n` tensors that has it.
pub open spec fn index_of(tensors: Seq<TensorView>, n: int) -> Map<Seq<char>, usize>
    decreases n,
{
    if n <= 0 {
        Map::empty()
    } else {
        index_of(tensors, n - 1).insert(tensors[n - 1].name, (n - 1) as usize)
    }
}

/// The tensor under a name: the last one that has it.
pub open spec fn tensor_under(tensors: Seq<TensorView>, name: Seq<char>) -> Option<TensorView> {
    let index = index_of(tensors, tensors.len() as int);
    if index.contains_key(name) {
        Some(tensors[index[name] as int])
    } else {
        None
    }
}

proof fn lemma_index(tensors: Seq<TensorView>, n: int, name: Seq<char>)
    requires
        0 <= n <= tensors.len() <= usize::MAX,
    ensures
        index_of(tensors, n).contains_key(name) <==> exists|i: int|
            0 <= i < n && (#[trigger] tensors[i]).name == name,
        index_of(tensors, n).contains_key(name) ==> index_of(tensors, n)[name] < n
            && tensors[index_of(tensors, n)[name] as int].name == name && forall|j: int|
            index_of(tensors, n)[name] < j < n ==> (#[trigger] tensors[j]).name != name,
        index_of(tensors, n).dom().finite(),
    decreases n,
{
    if n > 0 {
        lemma_index(tensors, n - 1, name);
        if tensors[n - 1].name == name {
            assert(tensors[n - 1].name == name);
        }
    }
}

/// What is found under a name has that name, and no later tensor does; nothing is found only where
/// no tensor has the name.
pub proof fn tensor_under_is_last(tensors: Seq<TensorView>, name: Seq<char>)
    requires
        tensors.len() <= usize::MAX,
    ensures
        match tensor_under(tensors, name) {
            Some(t) => exists|k: int|
                0 <= k < tensors.len() && #[trigger] tensors[k] == t && t.name == name && forall|
                    j: int,
                |
                    k < j < tensors.len() ==> (#[trigger] tensors[j]).name != name,
            None => forall|j: int|
                0 <= j < tensors.len() ==> (#[trigger] tensors[j]).name != name,
        },
{
    lemma_index(tensors, tensors.len() as int, name);
    let index = index_of(tensors, tensors.len() as int);
    if index.contains_key(name) {
        let k = index[name] as int;
        assert(tensors[k] == tensor_under(tensors, name)->0);
    }
}

/// A list of tensors that can be searched by name.
pub struct NamedTensors {
    tensors: Vec<GgufTensorInfo>,
    index: StringHashMap<usize>,
}

impl View for NamedTensors {
    type V = Seq<TensorView>;

    closed spec fn view(&self) -> Seq<TensorView> {
        tensor_views(self.tensors@)
    }
}

impl NamedTensors {
    #[verifier::type_invariant]
    spec fn well_formed(self) -> bool {
        &&& self.index@ == index_of(tensor_views(self.tensors@), self.tensors@.len() as int)
        &&& self.tensors@.len() <= usize::MAX
    }

    /// The given tensors.
    pub fn new(tensors: Vec<GgufTensorInfo>) -> (r: NamedTensors)
        ensures
            r@ == tensor_views(tensors@),
    {
        let ghost views = tensor_views(tensors@);
        let mut index: StringHashMap<usize> = StringHashMap::new();
        let count: usize = tensors.len();
        let mut i: usize = 0;
        while i < count
            invariant
                i <= count,
                count == tensors@.len(),
                views == tensor_views(tensors@),
                index@ == index_of(views, i as int),
            decreases count - i,
        {
            assert(views[i as int] == tensors@[i as int]@);
            index.insert(tensors[i].name.clone(), i);
            i = i + 1;
        }
        NamedTensors { tensors, index }
    }

    /// The tensor under a name: the last one that has it.
    pub fn get(&self, name: &str) -> (r: Option<&GgufTensorInfo>)
        ensures
            match r {
                Some(t) => tensor_under(self@, name@) == Some(t@),
                None => tensor_under(self@, name@) is None,
            },
    {
        proof {
            use_type_invariant(self);
            lemma_index(self@, self.tensors@.len() as int, name@);
        }
        match self.index.get(name) {
            None => None,
            Some(k) => {
                assert(self@[*k as int] == self.tensors@[*k as int]@);
                Some(&self.tensors[*k])
            },
        }
    }

    /// How many names there are.
    pub fn count(&self) -> (r: usize)
        ensures
            r == index_of(self@, self@.len() as int).len(),
    {
        proof {
            use_type_invariant(self);
        }
        self.index.len()
    }

    /// How many tensors there are.
    pub fn len(&self) -> (r: usize)
        ensures
            r == self@.len(),
    {
        self.tensors.len()
    }

    /// The tensor at a position.
    pub fn at(&self, i: usize) -> (r: &GgufTensorInfo)
        requires
            i < self@.len(),
        ensures
            r@ == self@[i as int],
    {
        &self.tensors[i]
    }
}

// ---------------------------------------------------------------------
// Layer numbers in tensor names
// ---------------------------------------------------------------------

/// The number between the prefix and the next dot of a name.
pub open spec fn layer_in(name: Seq<char>, prefix: Seq<char>) -> Option<usize> {
    if !occurs_at(name, prefix, 0) || !occurs_at(name, seq!['.'], prefix.len() as int) {
        None
    } else {
        let rest = name.skip(prefix.len() as int + 1);
        match next_at(rest, seq!['.'], 0) {
            None => None,
            Some(p) => match unsigned_value(rest.take(p), usize::MAX as nat) {
                Ok(v) => Some(v as usize),
                Err(_) => None,
            },
        }
    }
}

fn layer_of(name: &str, prefix: &str) -> (r: Option<usize>)
    ensures
        r == layer_in(name@, prefix@),
{
    let chars = to_chars(name);
    let pre = to_chars(prefix);
    let mut dot: Vec<char> = Vec::new();
    dot.push('.');
    assert(dot@ =~= seq!['.']);
    if !chars_occur_at(chars.as_slice(), pre.as_slice(), 0) {
        return None;
    }
    let at: usize = pre.len();
    if !chars_occur_at(chars.as_slice(), dot.as_slice(), at) {
        return None;
    }
    let end: usize = chars.len();
    let rest = slice_to_vec(slice_subrange(chars.as_slice(), at + 1, end));
    assert(rest@ =~= name@.skip(prefix@.len() as int + 1));
    match crate::tokenizer_s2cpp::find_from(&rest, &dot, 0) {
        None => None,
        Some(p) => {
            proof {
                crate::tokenizer_s2cpp::lemma_next_at(rest@, dot@, 0);
            }
            let digits = from_chars(slice_subrange(rest.as_slice(), 0, p));
            assert(digits@ =~= rest@.take(p as int));
            match parse_usize(digits.as_str()) {
                Ok(v) => Some(v),
                Err(_) => None,
            }
        },
    }
}

/// The ascending list with a number put in its place, unless it is there already.
pub open spec fn with_number(list: Seq<usize>, x: usize) -> Seq<usize>
    decreases list.len(),
{
    if list.len() == 0 || list.last() < x {
        list.push(x)
    } else if list.last() == x {
        list
    } else {
        with_number(list.drop_last(), x).push(list.last())
    }
}

/// The layer numbers under a prefix in the names of the first `n` tensors, ascending.
pub open spec fn layers_in(tensors: Seq<TensorView>, prefix: Seq<char>, n: int) -> Seq<usize>
    decreases n,
{
    if n <= 0 {
        Seq::empty()
    } else {
        match layer_in(tensors[n - 1].name, prefix) {
            Some(x) => with_number(layers_in(tensors, prefix, n - 1), x),
            None => layers_in(tensors, prefix, n - 1),
        }
    }
}

/// Whether each number is below the next.
pub open spec fn ascending(list: Seq<usize>) -> bool {
    forall|i: int, j: int| 0 <= i < j < list.len() ==> list[i] < list[j]
}

proof fn lemma_with_number(list: Seq<usize>, x: usize)
    requires
        ascending(list),
    ensures
        ascending(with_number(list, x)),
        forall|y: usize| #[trigger]
            with_number(list, x).contains(y) <==> list.contains(y) || y == x,
    decreases list.len(),
{
    let r = with_number(list, x);
    if list.len() == 0 || list.last() < x {
        assert forall|y: usize| #[trigger] r.contains(y) <==> list.contains(y) || y == x by {
            if list.contains(y) {
                let i = choose|i: int| 0 <= i < list.len() && list[i] == y;
                assert(r[i] == y);
            }
            assert(r[list.len() as int] == x);
        }
    } else if list.last() == x {
        assert(list[list.len() - 1] == x);
    } else {
        let init = list.drop_last();
        let inner = with_number(init, x);
        lemma_with_number(init, x);
        assert forall|y: usize| #[trigger] r.contains(y) <==> list.contains(y) || y == x by {
            if r.contains(y) {
                let i = choose|i: int| 0 <= i < r.len() && r[i] == y;
                if i < inner.len() {
                    assert(inner[i] == y);
                    assert(inner.contains(y));
                    if init.contains(y) {
                        let k = choose|k: int| 0 <= k < init.len() && init[k] == y;
                        assert(list[k] == y);
                    }
                } else {
                    assert(list[list.len() - 1] == y);
                }
            }
            if list.contains(y) || y == x {
                if y == list.last() {
                    assert(r[inner.len() as int] == y);
                } else {
                    if list.contains(y) {
                        let k = choose|k: int| 0 <= k < list.len() && list[k] == y;
                        assert(init[k] == y);
                        assert(init.contains(y));
                    }
                    assert(inner.contains(y));
                    let i = choose|i: int| 0 <= i < inner.len() && inner[i] == y;
                    assert(r[i] == y);
                }
            }
        }
        assert(ascending(r)) by {
            assert forall|i: int, j: int| 0 <= i < j < r.len() implies r[i] < r[j] by {
                if j == inner.len() {
                    let v = inner[i];
                    assert(inner.contains(v));
                    assert(init.contains(v) || v == x);
                    if v != x {
                        let k = choose|k: int| 0 <= k < init.len() && init[k] == v;
                        assert(list[k] < list[list.len() - 1]);
                    }
                } else {
                    assert(inner[i] < inner[j]);
                }
            }
        }
    }
}

/// The listed layer numbers ascend, and are exactly those that some tensor's name gives.
pub proof fn layers_in_are_those_named(tensors: Seq<TensorView>, prefix: Seq<char>, n: int)
    requires
        0 <= n <= tensors.len(),
    ensures
        ascending(layers_in(tensors, prefix, n)),
        forall|y: usize|
            #[trigger] layers_in(tensors, prefix, n).contains(y) <==> exists|i: int|
                0 <= i < n && layer_in((#[trigger] tensors[i]).name, prefix) == Some(y),
    decreases n,
{
    if n > 0 {
        layers_in_are_those_named(tensors, prefix, n - 1);
        let before = layers_in(tensors, prefix, n - 1);
        let now = layers_in(tensors, prefix, n);
        let found = layer_in(tensors[n - 1].name, prefix);
        if found is Some {
            lemma_with_number(before, found->0);
        }
        assert forall|y: usize| #[trigger] now.contains(y) <==> exists|i: int|
            0 <= i < n && layer_in((#[trigger] tensors[i]).name, prefix) == Some(y) by {
            if found is Some {
                assert(now.contains(y) <==> before.contains(y) || found == Some(y));
            }
            if now.contains(y) {
                if before.contains(y) {
                    let i = choose|i: int|
                        0 <= i < n - 1 && layer_in((#[trigger] tensors[i]).name, prefix) == Some(
                            y,
                        );
                    assert(layer_in(tensors[i].name, prefix) == Some(y));
                } else {
                    assert(layer_in(tensors[n - 1].name, prefix) == Some(y));
                }
            }
            if exists|i: int|
                0 <= i < n && layer_in((#[trigger] tensors[i]).name, prefix) == Some(y) {
                let i = choose|i: int|
                    0 <= i < n && layer_in((#[trigger] tensors[i]).name, prefix) == Some(y);
                if i < n - 1 {
                    assert(before.contains(y));
                }
            }
        }
    }
}

fn insert_number(list: &mut Vec<usize>, x: usize)
    ensures
        final(list)@ == with_number(old(list)@, x),
{
    let ghost start = list@;
    let mut i: usize = list.len();
    assert(start.take(i as int) =~= start);
    assert(start.skip(i as int) =~= Seq::<usize>::empty());
    assert(with_number(start, x) =~= with_number(start.take(i as int), x) + start.skip(i as int));
    while i > 0 && list[i - 1] > x
        invariant
            i <= list@.len(),
            list@ == start,
            with_number(start, x) == with_number(start.take(i as int), x) + start.skip(i as int),
        decreases i,
    {
        proof {
            let cur = start.take(i as int);
            assert(cur.last() == start[i - 1]);
            assert(cur.drop_last() =~= start.take(i - 1));
            assert(with_number(cur.drop_last(), x).push(cur.last()) + start.skip(i as int)
                =~= with_number(start.take(i - 1), x) + start.skip(i - 1));
        }
        i = i - 1;
    }
    proof {
        let cur = start.take(i as int);
        if cur.len() > 0 {
            assert(cur.last() == start[i - 1]);
        }
    }
    if i > 0 && list[i - 1] == x {
        assert(start.take(i as int) + start.skip(i as int) =~= start);
    } else {
        list.insert(i, x);
        assert(list@ =~= start.take(i as int).push(x) + start.skip(i as int));
    }
}

/// The layer numbers under a prefix in the names of the tensors, ascending.
pub fn indexed_layer_set(tensors: &NamedTensors, prefix: &str) -> (r: Vec<usize>)
    ensures
        r@ == layers_in(tensors@, prefix@, tensors@.len() as int),
{
    let mut out: Vec<usize> = Vec::new();
    let count: usize = tensors.len();
    let mut i: usize = 0;
    while i < count
        invariant
            i <= count,
            count == tensors@.len(),
            out@ == layers_in(tensors@, prefix@, i as int),
        decreases count - i,
    {
        match layer_of(tensors.at(i).name.as_str(), prefix) {
            Some(x) => {
                insert_number(&mut out, x);
            },
            None => {},
        }
        i = i + 1;
    }
    out
}

/// The numbers from zero up.
pub open spec fn counting(n: nat) -> Seq<usize> {
    Seq::new(n, |i: int| i as usize)
}

pub(crate) fn is_counting(list: &Vec<usize>, n: usize) -> (r: bool)
    ensures
        r == (list@ == counting(n as nat)),
{
    if list.len() != n {
        assert(counting(n as nat).len() == n);
        return false;
    }
    let mut i: usize = 0;
    while i < n
        invariant
            i <= n,
            list@.len() == n,
            forall|k: int| 0 <= k < i ==> list@[k] == k,
        decreases n - i,
    {
        if list[i] != i {
            assert(counting(n as nat)[i as int] == i);
            return false;
        }
        i = i + 1;
    }
    assert(list@ =~= counting(n as nat));
    true
}

// ---------------------------------------------------------------------
// The registry
// ---------------------------------------------------------------------

/// What is wrong with a required tensor, if anything.
pub open spec fn tensor_failure(tensors: Seq<TensorView>, required: TensorSpecView) -> Option<
    Seq<char>,
> {
    match tensor_under(tensors, required.name) {
        None => Some("missing "@ + required.name),
        Some(t) => if satisfies(t, required) {
            None
        } else {
            Some(
                required.name + " expected "@ + ggml_name(required.ggml_type) + " "@ + list_text(
                    longs(required.dimensions),
                ) + ", got "@ + ggml_name(t.ggml_type) + " "@ + list_text(longs(t.dimensions)),
            )
        },
    }
}

/// What is wrong with the first `n` required tensors.
pub open spec fn required_failures(
    tensors: Seq<TensorView>,
    required: Seq<TensorSpecView>,
    n: int,
) -> Seq<Seq<char>>
    decreases n,
{
    if n <= 0 {
        Seq::empty()
    } else {
        match tensor_failure(tensors, required[n - 1]) {
            Some(text) => required_failures(tensors, required, n - 1).push(text),
            None => required_failures(tensors, required, n - 1),
        }
    }
}

/// The error that lists what is wrong with the required tensors, if anything is.
pub open spec fn required_error(tensors: Seq<TensorView>) -> Option<ErrorView> {
    let failures = required_failures(
        tensors,
        required_tensors(),
        required_tensors().len() as int,
    );
    if failures.len() == 0 {
        None
    } else {
        Some(
            message("transformer tensor registry validation failed:\n"@ + joined(failures, "\n"@)),
        )
    }
}

/// The error of layers that are too many or too few, if there is one.
pub open spec fn layer_error(tensors: Seq<TensorView>) -> Option<ErrorView> {
    let slow = layers_in(tensors, "layers"@, tensors.len() as int);
    let fast = layers_in(tensors, "fast_layers"@, tensors.len() as int);
    if slow != counting(36) {
        Some(message("unexpected Slow-AR layer set: "@ + set_text(sizes(slow))))
    } else if fast != counting(4) {
        Some(message("unexpected Fast-AR layer set: "@ + set_text(sizes(fast))))
    } else {
        None
    }
}

/// What is wrong with a model file, if anything, up to its tensors.
pub open spec fn registry_error(f: crate::gguf::FileView, floats: FloatReadings) -> Option<
    ErrorView,
> {
    match value_of(f.metadata, "general.architecture"@, 0) {
        None => Some(message("missing general.architecture"@)),
        Some(arch) => if arch != "fish-speech"@ {
            Some(message("expected fish-speech transformer GGUF, got "@ + arch))
        } else {
            match graph_of(f.metadata, floats) {
                Err(e) => Some(e),
                Ok(_) => match required_error(f.tensors) {
                    Some(e) => Some(e),
                    None => layer_error(f.tensors),
                },
            }
        },
    }
}

/// The tensors of a model that was found complete.
pub struct TransformerTensorRegistry {
    pub architecture: String,
    pub tensor_count: usize,
    graph_spec: DualArGraphSpec,
    tensors: NamedTensors,
    required: Vec<TensorSpec>,
    slow_layers: Vec<SlowArLayerWeights>,
    fast_layers: Vec<FastArLayerWeights>,
}

fn describe_mismatch(spec: &TensorSpec, tensor: &GgufTensorInfo) -> (r: String)
    ensures
        r@ == spec@.name + " expected "@ + ggml_name(spec@.ggml_type) + " "@ + list_text(
            longs(spec@.dimensions),
        ) + ", got "@ + ggml_name(tensor@.ggml_type) + " "@ + list_text(longs(tensor@.dimensions)),
{
    let want = show_longs(spec.dimensions.as_slice());
    let have = show_longs(tensor.dimensions.as_slice());
    spec.name.clone().concat(" expected ").concat(spec.ggml_type.name()).concat(" ").concat(
        want.as_str(),
    ).concat(", got ").concat(tensor.ggml_type.name()).concat(" ").concat(have.as_str())
}

fn validate_required(tensors: &NamedTensors, required: &Vec<TensorSpec>) -> (r: Result<
    (),
    InferError,
>)
    requires
        spec_views(required@) == required_tensors(),
    ensures
        match r {
            Ok(_) => required_error(tensors@) is None,
            Err(e) => required_error(tensors@) == Some(e@),
        },
{
    let ghost views = spec_views(required@);
    let mut failures: Vec<String> = Vec::new();
    let mut i: usize = 0;
    assert(strings(failures@) =~= required_failures(tensors@, views, 0));
    while i < required.len()
        invariant
            i <= required@.len(),
            views == spec_views(required@),
            strings(failures@) == required_failures(tensors@, views, i as int),
        decreases required@.len() - i,
    {
        let spec = &required[i];
        assert(views[i as int] == spec@);
        let ghost before = failures@;
        match tensors.get(spec.name.as_str()) {
            None => {
                let text = String::from_str("missing ").concat(spec.name.as_str());
                let ghost view = text@;
                failures.push(text);
                assert(strings(failures@) =~= strings(before).push(view));
            },
            Some(tensor) => {
                if !spec.matches(tensor) {
                    let text = describe_mismatch(spec, tensor);
                    let ghost view = text@;
                    failures.push(text);
                    assert(strings(failures@) =~= strings(before).push(view));
                }
            },
        }
        i = i + 1;
    }
    assert(strings(failures@).len() == failures@.len());
    assert(views.len() == required@.len());
    if failures.len() == 0 {
        Ok(())
    } else {
        let body = join_strings(&failures, "\n");
        Err(
            InferError::Message(
                String::from_str("transformer tensor registry validation failed:\n").concat(
                    body.as_str(),
                ),
            ),
        )
    }
}

fn validate_layer_sets(tensors: &NamedTensors) -> (r: Result<(), InferError>)
    ensures
        match r {
            Ok(_) => layer_error(tensors@) is None,
            Err(e) => layer_error(tensors@) == Some(e@),
        },
{
    let slow = indexed_layer_set(tensors, "layers");
    let fast = indexed_layer_set(tensors, "fast_layers");
    if !is_counting(&slow, SLOW_AR_LAYERS) {
        let shown = show_size_set(slow.as_slice());
        return Err(
            InferError::Message(
                String::from_str("unexpected Slow-AR layer set: ").concat(shown.as_str()),
            ),
        );
    }
    if !is_counting(&fast, FAST_AR_LAYERS) {
        let shown = show_size_set(fast.as_slice());
        return Err(
            InferError::Message(
                String::from_str("unexpected Fast-AR layer set: ").concat(shown.as_str()),
            ),
        );
    }
    Ok(())
}

fn slow_layer_names() -> (r: Vec<SlowArLayerWeights>)
    ensures
        r@.len() == 36,
        forall|i: int| 0 <= i < 36 ==> names_slow_layer(#[trigger] r@[i], i as usize),
{
    let mut out: Vec<SlowArLayerWeights> = Vec::new();
    let mut i: usize = 0;
    while i < SLOW_AR_LAYERS
        invariant
            i <= SLOW_AR_LAYERS,
            out@.len() == i,
            forall|k: int| 0 <= k < i ==> names_slow_layer(#[trigger] out@[k], k as usize),
        decreases SLOW_AR_LAYERS - i,
    {
        out.push(SlowArLayerWeights::names(i));
        i = i + 1;
    }
    out
}

fn fast_layer_names() -> (r: Vec<FastArLayerWeights>)
    ensures
        r@.len() == 4,
        forall|i: int| 0 <= i < 4 ==> names_fast_layer(#[trigger] r@[i], i as usize),
{
    let mut out: Vec<FastArLayerWeights> = Vec::new();
    let mut i: usize = 0;
    while i < FAST_AR_LAYERS
        invariant
            i <= FAST_AR_LAYERS,
            out@.len() == i,
            forall|k: int| 0 <= k < i ==> names_fast_layer(#[trigger] out@[k], k as usize),
        decreases FAST_AR_LAYERS - i,
    {
        out.push(FastArLayerWeights::names(i));
        i = i + 1;
    }
    out
}

impl TransformerTensorRegistry {
    /// The tensors, as listed in the file.
    pub closed spec fn listed(&self) -> Seq<TensorView> {
        self.tensors@
    }

    /// The architecture that the file names.
    pub closed spec fn arch(&self) -> Seq<char> {
        self.architecture@
    }

    /// How many names the tensors have.
    pub closed spec fn counted(&self) -> usize {
        self.tensor_count
    }

    /// The shape of the model.
    pub closed spec fn graph(&self) -> DualArGraphSpec {
        self.graph_spec
    }

    /// Whether the lists that every registry carries are complete.
    pub closed spec fn complete(&self) -> bool {
        &&& spec_views(self.required@) == required_tensors()
        &&& self.slow_layers@.len() == 36
        &&& forall|i: int|
            0 <= i < 36 ==> names_slow_layer(#[trigger] self.slow_layers@[i], i as usize)
        &&& self.fast_layers@.len() == 4
        &&& forall|i: int|
            0 <= i < 4 ==> names_fast_layer(#[trigger] self.fast_layers@[i], i as usize)
    }

    /// The registry of a model file that is complete: the known shape, every required tensor with
    /// its type and dimensions, and no layer more or less.
    pub fn from_gguf(gguf: &GgufFile, floats: &FloatReadings) -> (r: Result<
        TransformerTensorRegistry,
        InferError,
    >)
        requires
            !divides_by_no_heads(gguf@.metadata),
        ensures
            match r {
                Ok(v) => registry_error(gguf@, *floats) is None && v.complete() && v.arch()
                    == "fish-speech"@ && v.counted() == index_of(
                    gguf@.tensors,
                    gguf@.tensors.len() as int,
                ).len() && v.listed() == gguf@.tensors && graph_of(gguf@.metadata, *floats)
                    == Ok::<DualArGraphSpec, ErrorView>(v.graph()),
                Err(e) => registry_error(gguf@, *floats) == Some(e@),
            },
    {
        let architecture = match metadata_value(&gguf.metadata, "general.architecture") {
            None => {
                return Err(InferError::text("missing general.architecture"));
            },
            Some(t) => t,
        };
        if !str_eq(architecture.as_str(), "fish-speech") {
            return Err(
                InferError::Message(
                    String::from_str("expected fish-speech transformer GGUF, got ").concat(
                        architecture.as_str(),
                    ),
                ),
            );
        }
        let graph_spec: DualArGraphSpec = match DualArGraphSpec::from_gguf(gguf, floats) {
            Err(e) => {
                return Err(e);
            },
            Ok(g) => g,
        };
        let tensors = NamedTensors::new(copy_tensors(&gguf.tensors));
        let required = required_specs();
        match validate_required(&tensors, &required) {
            Err(e) => {
                return Err(e);
            },
            Ok(_) => {},
        }
        match validate_layer_sets(&tensors) {
            Err(e) => {
                return Err(e);
            },
            Ok(_) => {},
        }
        let tensor_count: usize = tensors.count();
        Ok(
            TransformerTensorRegistry {
                architecture,
                tensor_count,
                graph_spec,
                tensors,
                required,
                slow_layers: slow_layer_names(),
                fast_layers: fast_layer_names(),
            },
        )
    }

    /// The tensor under a name.
    pub fn tensor(&self, name: &str) -> (r: Option<&GgufTensorInfo>)
        ensures
            match r {
                Some(t) => tensor_under(self.listed(), name@) == Some(t@),
                None => tensor_under(self.listed(), name@) is None,
            },
    {
        self.tensors.get(name)
    }

    /// The tensors that a model must have.
    pub fn required_specs(&self) -> (r: &Vec<TensorSpec>)
        requires
            self.complete(),
        ensures
            spec_views(r@) == required_tensors(),
    {
        &self.required
    }

    /// The shape of the model.
    pub fn graph_spec(&self) -> (r: &DualArGraphSpec)
        ensures
            *r == self.graph(),
    {
        &self.graph_spec
    }

    /// The names of a slow layer's tensors.
    pub fn slow_layer(&self, layer: usize) -> (r: Option<&SlowArLayerWeights>)
        requires
            self.complete(),
        ensures
            match r {
                Some(w) => layer < 36 && names_slow_layer(*w, layer),
                None => layer >= 36,
            },
    {
        if layer < self.slow_layers.len() {
            Some(&self.slow_layers[layer])
        } else {
            None
        }
    }

    /// The names of a fast layer's tensors.
    pub fn fast_layer(&self, layer: usize) -> (r: Option<&FastArLayerWeights>)
        requires
            self.complete(),
        ensures
            match r {
                Some(w) => layer < 4 && names_fast_layer(*w, layer),
                None => layer >= 4,
            },
    {
        if layer < self.fast_layers.len() {
            Some(&self.fast_layers[layer])
        } else {
            None
        }
    }

    /// How many slow layers there are.
    pub fn slow_layer_count(&self) -> (r: usize)
        requires
            self.complete(),
        ensures
            r == 36,
    {
        self.slow_layers.len()
    }

    /// How many fast layers there are.
    pub fn fast_layer_count(&self) -> (r: usize)
        requires
            self.complete(),
        ensures
            r == 4,
    {
        self.fast_layers.len()
    }
}

proof fn lemma_no_failures(
    tensors: Seq<TensorView>,
    required: Seq<TensorSpecView>,
    n: int,
    k: int,
)
    requires
        0 <= k < n <= required.len(),
        required_failures(tensors, required, n).len() == 0,
    ensures
        tensor_failure(tensors, required[k]) is None,
    decreases n,
{
    if k < n - 1 {
        lemma_no_failures(tensors, required, n - 1, k);
    }
}

/// A file that a registry accepts has every required tensor, with its type and dimensions.
pub proof fn accepted_files_are_complete(
    f: crate::gguf::FileView,
    floats: FloatReadings,
    k: int,
)
    requires
        registry_error(f, floats) is None,
        0 <= k < required_tensors().len(),
    ensures
        tensor_under(f.tensors, required_tensors()[k].name) is Some,
        satisfies(
            tensor_under(f.tensors, required_tensors()[k].name)->0,
            required_tensors()[k],
        ),
{
    lemma_no_failures(
        f.tensors,
        required_tensors(),
        required_tensors().len() as int,
        k,
    );
}

} // verus!
