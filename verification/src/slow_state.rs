//! A run of the slow transformer that remembers the tokens it was given.
use crate::attention::{cache_size_error, CacheView, SlowArKvCache};
use crate::backend::CpuMatmulBackend;
use crate::error::{message, mismatch, size_mismatch, ErrorView, InferError};
use crate::gguf::{tensors_inside, FileView, GgufFile};
use crate::graph::{
    accepted_shape_is_the_known_one, divides_by_no_heads, graph_of, DualArGraphSpec, FloatReadings,
};
use crate::numeric::{Calc, Op};
use crate::registry::{registry_error, TransformerTensorRegistry};
use crate::sizes::or_else;
use crate::slow_ar::{
    this_moment, time_in_all, SlowArDecodeProfile, SlowArLayerShape, SlowArProfileOp,
};
use crate::slow_embed::{
    are_embedded, check_count, count_error, embed_error, embed_slow_ar_time_major,
    embedding_dims_error, token_count, SlowArEmbeddingWeights,
};
use crate::slow_layer::SlowArLayerBlockOutput;
use crate::slow_backend::seen;
use crate::slow_decode::{
    forward_slow_ar_block_decode_layers_with_backend, lemma_cpu_layers,
};
use crate::slow_run::{
    forward_slow_ar_block_prefill_layers_cached, is_empty_cache, run_fails, run_gives,
    SlowArDecodeLayerRequest,
};
use crate::slow_sequence::lists;
use crate::slow_weights::{
    are_logits, head_dims_error, logits_error, read_error, wide_of, SlowArOutputHeadF16Weights,
};
use crate::tensor::{f16_parts, F16View, WideView};
use crate::text::{dec, dec_usize};
use vstd::prelude::*;
use vstd::slice::slice_to_vec;
use vstd::string::*;

verus! {

/// What a run of the slow transformer gives for the last token: its hidden state after the last
/// norm, and its logits.
#[derive(Debug)]
pub struct SlowArStepResult<T> {
    pub hidden: Vec<T>,
    pub logits: Vec<T>,
}

/// A run of the slow transformer.
pub struct SlowArState<T> {
    gguf: GgufFile,
    registry: TransformerTensorRegistry,
    graph: DualArGraphSpec,
    shape: SlowArLayerShape,
    embeddings: SlowArEmbeddingWeights,
    output_head: SlowArOutputHeadF16Weights,
    cache: SlowArKvCache<T>,
    n_past: usize,
    max_seq_len: usize,
    decode_profile: SlowArDecodeProfile,
}

/// A run as a mathematical value.
pub ghost struct SlowStateView<T> {
    pub file: FileView,
    pub graph: DualArGraphSpec,
    pub semantic: WideView,
    pub codebook: WideView,
    pub norm: WideView,
    pub embeddings: F16View,
    pub cache: CacheView<T>,
    pub n_past: usize,
    pub max_seq_len: usize,
}

impl<T> View for SlowArState<T> {
    type V = SlowStateView<T>;

    closed spec fn view(&self) -> SlowStateView<T> {
        SlowStateView {
            file: self.gguf@,
            graph: self.graph,
            semantic: self.embeddings.semantic@,
            codebook: self.embeddings.codebook@,
            norm: self.output_head.norm@,
            embeddings: self.output_head.embeddings@,
            cache: self.cache@,
            n_past: self.n_past,
            max_seq_len: self.max_seq_len,
        }
    }
}

/// What is wrong with opening a model for a run, if anything.
pub open spec fn open_error(
    f: FileView,
    file: Seq<u8>,
    floats: FloatReadings,
    max_seq_len: usize,
) -> Option<ErrorView> {
    if max_seq_len == 0 {
        Some(message("max_seq_len must be non-zero"@))
    } else {
        or_else(
            registry_error(f, floats),
            or_else(
                read_error(f, file, "embeddings.weight"@),
                or_else(
                    read_error(f, file, "codebook_embeddings.weight"@),
                    or_else(
                        embedding_dims_error(
                            f16_parts(f, file, "embeddings.weight"@)->Ok_0.0,
                            f16_parts(f, file, "codebook_embeddings.weight"@)->Ok_0.0,
                        ),
                        or_else(
                            read_error(f, file, "norm.weight"@),
                            or_else(
                                head_dims_error(
                                    f16_parts(f, file, "norm.weight"@)->Ok_0.0,
                                    f16_parts(f, file, "embeddings.weight"@)->Ok_0.0,
                                ),
                                cache_size_error(
                                    graph_of(f.metadata, floats)->Ok_0.kv_cache,
                                    max_seq_len,
                                ),
                            ),
                        ),
                    ),
                ),
            ),
        )
    }
}

impl<T> SlowStateView<T> {
    /// What is wrong with a count of numbers, if anything.
    pub open spec fn input_error(self, count: nat) -> Option<ErrorView> {
        let n = count as int / (self.graph.num_codebooks + 1);
        or_else(
            count_error(count, self.graph),
            if n == 0 {
                Some(message("expected at least one token"@))
            } else if self.n_past + n > self.max_seq_len {
                Some(
                    message(
                        "KV cache overflow: n_past="@ + dec(self.n_past as nat) + " n_tokens="@
                            + dec(n as nat) + " max_seq_len="@ + dec(self.max_seq_len as nat),
                    ),
                )
            } else {
                None
            },
        )
    }
}

impl<T: Copy> SlowStateView<T> {
    /// Whether a run on tokens gives this result and leaves this cache.
    pub open spec fn gives<F: Fn(Op, T, T, T) -> T>(
        self,
        file: Seq<u8>,
        flat: Seq<i32>,
        calc: Calc<T, F>,
        r: SlowArStepResult<T>,
        after: CacheView<T>,
    ) -> bool {
        exists|hidden: Seq<Seq<T>>, out: Seq<SlowArLayerBlockOutput<T>>|
            {
                &&& #[trigger] are_embedded(
                    flat,
                    self.graph,
                    self.semantic,
                    self.codebook,
                    calc,
                    hidden,
                )
                &&& #[trigger] run_gives(
                    self.file,
                    file,
                    0,
                    36,
                    SlowArLayerShape::of(self.graph.slow),
                    self.n_past,
                    calc,
                    hidden,
                    self.cache,
                    out,
                    after,
                )
                &&& out.len() > 0
                &&& are_logits(
                    self.norm,
                    self.embeddings,
                    out.last().hidden@,
                    self.graph.slow.rms_norm_eps,
                    calc,
                    r.hidden@,
                    r.logits@,
                )
            }
    }

    /// Whether a run on tokens fails with this error.
    pub open spec fn fails<F: Fn(Op, T, T, T) -> T>(
        self,
        file: Seq<u8>,
        flat: Seq<i32>,
        base_text: Seq<char>,
        calc: Calc<T, F>,
        e: ErrorView,
    ) -> bool {
        let early = or_else(
            self.input_error(flat.len()),
            embed_error(flat, self.graph, self.semantic, self.codebook),
        );
        if early is Some {
            early == Some(e)
        } else {
            exists|hidden: Seq<Seq<T>>|
                {
                    &&& #[trigger] are_embedded(
                        flat,
                        self.graph,
                        self.semantic,
                        self.codebook,
                        calc,
                        hidden,
                    )
                    &&& {
                        ||| run_fails(
                            self.file,
                            file,
                            0,
                            36,
                            SlowArLayerShape::of(self.graph.slow),
                            self.n_past,
                            base_text,
                            calc,
                            hidden,
                            self.cache,
                            e,
                        )
                        ||| self.ends_without_logits(file, calc, hidden, e)
                    }
                }
        }
    }

    /// Whether all layers work on hidden states, and the last norm or the logits then fail.
    pub open spec fn ends_without_logits<F: Fn(Op, T, T, T) -> T>(
        self,
        file: Seq<u8>,
        calc: Calc<T, F>,
        hidden: Seq<Seq<T>>,
        e: ErrorView,
    ) -> bool {
        exists|out: Seq<SlowArLayerBlockOutput<T>>, after: CacheView<T>|
            #[trigger] run_gives(
                self.file,
                file,
                0,
                36,
                SlowArLayerShape::of(self.graph.slow),
                self.n_past,
                calc,
                hidden,
                self.cache,
                out,
                after,
            ) && logits_error(self.norm, self.embeddings, out.last().hidden@.len()) == Some(e)
    }

    /// The run after `n` more tokens, with another cache.
    pub open spec fn after(self, n: int, cache: CacheView<T>) -> SlowStateView<T> {
        SlowStateView {
            file: self.file,
            graph: self.graph,
            semantic: self.semantic,
            codebook: self.codebook,
            norm: self.norm,
            embeddings: self.embeddings,
            cache,
            n_past: (self.n_past + n) as usize,
            max_seq_len: self.max_seq_len,
        }
    }
}

proof fn lemma_as_many_outputs<T: Copy, F: Fn(Op, T, T, T) -> T>(
    f: FileView,
    file: Seq<u8>,
    first: usize,
    count: usize,
    shape: SlowArLayerShape,
    start: usize,
    calc: Calc<T, F>,
    hidden: Seq<Seq<T>>,
    before: CacheView<T>,
    out: Seq<SlowArLayerBlockOutput<T>>,
    after: CacheView<T>,
)
    requires
        run_gives(f, file, first, count, shape, start, calc, hidden, before, out, after),
        count > 0,
    ensures
        out.len() == hidden.len(),
{
    let (states, outs) = choose|
        states: Seq<crate::slow_run::RunState<T>>,
        outs: Seq<Seq<SlowArLayerBlockOutput<T>>>,
    |
        {
            &&& #[trigger] crate::slow_run::is_run(
                f,
                file,
                first,
                shape,
                start,
                calc,
                states,
                outs,
            )
            &&& outs.len() == count
            &&& states[0] == (crate::slow_run::RunState { hidden, cache: before })
            &&& outs.last() == out
            &&& states.last().cache == after
        };
    lemma_all_as_many(f, file, first, shape, start, calc, states, outs, outs.len() - 1);
}

proof fn lemma_all_as_many<T: Copy, F: Fn(Op, T, T, T) -> T>(
    f: FileView,
    file: Seq<u8>,
    first: usize,
    shape: SlowArLayerShape,
    start: usize,
    calc: Calc<T, F>,
    states: Seq<crate::slow_run::RunState<T>>,
    outs: Seq<Seq<SlowArLayerBlockOutput<T>>>,
    k: int,
)
    requires
        crate::slow_run::is_run(f, file, first, shape, start, calc, states, outs),
        0 <= k < outs.len(),
    ensures
        outs[k].len() == states[0].hidden.len(),
        states[k + 1].hidden.len() == states[0].hidden.len(),
    decreases k,
{
    if k > 0 {
        lemma_all_as_many(f, file, first, shape, start, calc, states, outs, k - 1);
    }
    assert(crate::slow_run::is_layer_step(
        f,
        file,
        (first + k) as usize,
        shape,
        start,
        calc,
        states[k],
        outs[k],
        states[k + 1],
    ));
}

impl<T: Copy> SlowArState<T> {
    /// Whether all parts of the run fit together.
    pub closed spec fn ready(&self) -> bool {
        &&& tensors_inside(self.gguf@)
        &&& self.registry.complete()
        &&& self.registry.graph() == self.graph
        &&& self.shape == SlowArLayerShape::of(self.graph.slow)
        &&& self.embeddings.fit()
        &&& self.cache@.full()
        &&& self.cache@.max_seq_len == self.max_seq_len
        &&& self.cache@.head_dim == self.graph.kv_cache.head_dim
        &&& self.cache@.head_count_kv == self.graph.kv_cache.head_count_kv
        &&& self.cache@.block_count == self.graph.kv_cache.block_count
        &&& cache_size_error(self.graph.kv_cache, self.max_seq_len) is None
        &&& self.n_past <= self.max_seq_len
        &&& self.graph.num_codebooks < u32::MAX
    }

    /// A run of a model, with room for as many tokens as it can take.
    pub fn open_default_max_seq_len(
        gguf: GgufFile,
        file: &[u8],
        floats: &FloatReadings,
        zero: T,
    ) -> (r: Result<SlowArState<T>, InferError>)
        requires
            tensors_inside(gguf@),
            !divides_by_no_heads(gguf@.metadata),
        ensures
            match r {
                Ok(s) => {
                    &&& open_error(gguf@, file@, *floats, 32768) is None
                    &&& s.ready()
                    &&& s@.file == gguf@
                    &&& graph_of(gguf@.metadata, *floats) == Ok::<DualArGraphSpec, ErrorView>(
                        s@.graph,
                    )
                    &&& wide_of(gguf@, file@, "embeddings.weight"@) == Ok::<WideView, ErrorView>(
                        s@.semantic,
                    )
                    &&& wide_of(gguf@, file@, "codebook_embeddings.weight"@) == Ok::<
                        WideView,
                        ErrorView,
                    >(s@.codebook)
                    &&& wide_of(gguf@, file@, "norm.weight"@) == Ok::<WideView, ErrorView>(s@.norm)
                    &&& f16_parts(gguf@, file@, "embeddings.weight"@) == Ok::<
                        (Seq<usize>, Seq<u8>),
                        ErrorView,
                    >((s@.embeddings.dimensions, s@.embeddings.bytes))
                    &&& is_empty_cache(s@.cache, s@.graph, 32768, zero)
                    &&& s@.n_past == 0
                    &&& s@.max_seq_len == 32768
                },
                Err(e) => open_error(gguf@, file@, *floats, 32768) == Some(e@),
            },
    {
        SlowArState::open(gguf, file, floats, 32768, zero)
    }

    /// A run of a model, for up to `max_seq_len` tokens.
    pub fn open(
        gguf: GgufFile,
        file: &[u8],
        floats: &FloatReadings,
        max_seq_len: usize,
        zero: T,
    ) -> (r: Result<SlowArState<T>, InferError>)
        requires
            tensors_inside(gguf@),
            !divides_by_no_heads(gguf@.metadata),
        ensures
            match r {
                Ok(s) => {
                    &&& open_error(gguf@, file@, *floats, max_seq_len) is None
                    &&& s.ready()
                    &&& s@.file == gguf@
                    &&& graph_of(gguf@.metadata, *floats) == Ok::<DualArGraphSpec, ErrorView>(
                        s@.graph,
                    )
                    &&& wide_of(gguf@, file@, "embeddings.weight"@) == Ok::<WideView, ErrorView>(
                        s@.semantic,
                    )
                    &&& wide_of(gguf@, file@, "codebook_embeddings.weight"@) == Ok::<
                        WideView,
                        ErrorView,
                    >(s@.codebook)
                    &&& wide_of(gguf@, file@, "norm.weight"@) == Ok::<WideView, ErrorView>(s@.norm)
                    &&& f16_parts(gguf@, file@, "embeddings.weight"@) == Ok::<
                        (Seq<usize>, Seq<u8>),
                        ErrorView,
                    >((s@.embeddings.dimensions, s@.embeddings.bytes))
                    &&& is_empty_cache(s@.cache, s@.graph, max_seq_len, zero)
                    &&& s@.n_past == 0
                    &&& s@.max_seq_len == max_seq_len
                },
                Err(e) => open_error(gguf@, file@, *floats, max_seq_len) == Some(e@),
            },
    {
        if max_seq_len == 0 {
            return Err(InferError::text("max_seq_len must be non-zero"));
        }
        let registry = match TransformerTensorRegistry::from_gguf(&gguf, floats) {
            Err(e) => {
                return Err(e);
            },
            Ok(v) => v,
        };
        let graph: DualArGraphSpec = *registry.graph_spec();
        let shape = match SlowArLayerShape::from_ar_graph_spec(&graph.slow) {
            Err(e) => {
                return Err(e);
            },
            Ok(s) => s,
        };
        proof {
            accepted_shape_is_the_known_one(graph, *floats);
        }
        let embeddings = match SlowArEmbeddingWeights::from_gguf(&gguf, file) {
            Err(e) => {
                return Err(e);
            },
            Ok(v) => v,
        };
        let output_head = match SlowArOutputHeadF16Weights::from_gguf(&gguf, file) {
            Err(e) => {
                return Err(e);
            },
            Ok(v) => v,
        };
        let cache = match SlowArKvCache::new(graph.kv_cache, max_seq_len, zero) {
            Err(e) => {
                return Err(e);
            },
            Ok(c) => c,
        };
        Ok(
            SlowArState {
                gguf,
                registry,
                graph,
                shape,
                embeddings,
                output_head,
                cache,
                n_past: 0,
                max_seq_len,
                decode_profile: SlowArDecodeProfile::zero(),
            },
        )
    }

    /// The shape of the model.
    pub fn graph_spec(&self) -> (r: &DualArGraphSpec)
        ensures
            *r == self@.graph,
    {
        &self.graph
    }

    /// How many tokens the run has been given.
    pub fn n_past(&self) -> (r: usize)
        ensures
            r == self@.n_past,
    {
        self.n_past
    }

    /// The time that the last run of the model spent in its parts.
    pub closed spec fn time_spent(&self) -> SlowArDecodeProfile {
        self.decode_profile
    }

    /// The time that the last run of the model spent in its parts.
    pub fn decode_profile(&self) -> (r: SlowArDecodeProfile)
        ensures
            r == self.time_spent(),
    {
        self.decode_profile
    }

    /// Forgets the time that was spent.
    pub fn reset_decode_profile(&mut self)
        ensures
            time_in_all(final(self).time_spent()) == 0,
            final(self)@ == old(self)@,
            old(self).ready() ==> final(self).ready(),
    {
        self.decode_profile = SlowArDecodeProfile::zero();
    }

    /// The model file.
    pub fn gguf(&self) -> (r: &GgufFile)
        ensures
            r@ == self@.file,
            self.ready() ==> tensors_inside(r@),
    {
        &self.gguf
    }

    /// Forgets all tokens.
    pub fn reset(&mut self, zero: T)
        requires
            old(self).ready(),
        ensures
            final(self).ready(),
            is_empty_cache(final(self)@.cache, old(self)@.graph, old(self)@.max_seq_len, zero),
            final(self)@ == old(self)@.after(-(old(self)@.n_past as int), final(self)@.cache),
    {
        self.n_past = 0;
        match SlowArKvCache::new(self.graph.kv_cache, self.max_seq_len, zero) {
            Ok(c) => {
                self.cache = c;
            },
            Err(_) => {
                assert(false);
            },
        }
    }

    /// Runs the model on the tokens of a prompt.
    pub fn prefill<F: Fn(Op, T, T, T) -> T>(
        &mut self,
        file: &[u8],
        flat_tokens: &[i32],
        base_text: &str,
        calc: &Calc<T, F>,
    ) -> (r: Result<SlowArStepResult<T>, InferError>)
        requires
            old(self).ready(),
            calc.works(),
        ensures
            final(self).ready(),
            match r {
                Ok(v) => or_else(
                    old(self)@.input_error(flat_tokens@.len()),
                    embed_error(
                        flat_tokens@,
                        old(self)@.graph,
                        old(self)@.semantic,
                        old(self)@.codebook,
                    ),
                ) is None && old(self)@.gives(
                    file@,
                    flat_tokens@,
                    *calc,
                    v,
                    final(self)@.cache,
                ) && final(self)@ == old(self)@.after(
                    token_count(flat_tokens@, old(self)@.graph),
                    final(self)@.cache,
                ),
                Err(e) => old(self)@.fails(file@, flat_tokens@, base_text@, *calc, e@)
                    && final(self)@ == old(self)@.after(0, final(self)@.cache),
            },
    {
        self.eval(file, flat_tokens, base_text, calc)
    }

    /// Runs the model on one more token.
    pub fn step<F: Fn(Op, T, T, T) -> T>(
        &mut self,
        file: &[u8],
        flat_token: &[i32],
        base_text: &str,
        calc: &Calc<T, F>,
    ) -> (r: Result<SlowArStepResult<T>, InferError>)
        requires
            old(self).ready(),
            calc.works(),
        ensures
            final(self).ready(),
            match r {
                Ok(v) => {
                    &&& flat_token@.len() == old(self)@.graph.num_codebooks + 1
                    &&& or_else(
                        old(self)@.input_error(flat_token@.len()),
                        embed_error(
                            flat_token@,
                            old(self)@.graph,
                            old(self)@.semantic,
                            old(self)@.codebook,
                        ),
                    ) is None
                    &&& old(self)@.gives(file@, flat_token@, *calc, v, final(self)@.cache)
                    &&& final(self)@ == old(self)@.after(1, final(self)@.cache)
                },
                Err(e) => if flat_token@.len() != old(self)@.graph.num_codebooks + 1 {
                    e@ == mismatch(
                        "step token width"@,
                        (old(self)@.graph.num_codebooks + 1) as nat,
                        flat_token@.len(),
                    ) && final(self)@ == old(self)@
                } else {
                    old(self)@.fails(file@, flat_token@, base_text@, *calc, e@) && final(self)@
                        == old(self)@.after(0, final(self)@.cache)
                },
            },
    {
        let dim: usize = self.graph.codebook_input_dim() as usize;
        let found: usize = flat_token.len();
        if found != dim {
            return Err(size_mismatch("step token width", dim, found));
        }
        proof {
            assert(found as int / (self@.graph.num_codebooks + 1) == 1) by {
                vstd::arithmetic::div_mod::lemma_div_by_self(dim as int);
            }
        }
        self.eval(file, flat_token, base_text, calc)
    }

    /// Lets all layers work on hidden states, one token alone or several at once.
    fn run_layers<F: Fn(Op, T, T, T) -> T>(
        &mut self,
        file: &[u8],
        hidden: &Vec<Vec<T>>,
        base_text: &str,
        calc: &Calc<T, F>,
    ) -> (r: Result<(Vec<T>, Ghost<Seq<SlowArLayerBlockOutput<T>>>), InferError>)
        requires
            old(self).ready(),
            calc.works(),
            hidden@.len() > 0,
        ensures
            final(self).ready(),
            final(self)@ == old(self)@.after(0, final(self)@.cache),
            match r {
                Ok(p) => {
                    &&& run_gives(
                        old(self)@.file,
                        file@,
                        0,
                        36,
                        SlowArLayerShape::of(old(self)@.graph.slow),
                        old(self)@.n_past,
                        *calc,
                        lists(hidden@),
                        old(self)@.cache,
                        p.1@,
                        final(self)@.cache,
                    )
                    &&& p.1@.len() > 0
                    &&& p.1@.last().hidden@ == p.0@
                },
                Err(e) => run_fails(
                    old(self)@.file,
                    file@,
                    0,
                    36,
                    SlowArLayerShape::of(old(self)@.graph.slow),
                    old(self)@.n_past,
                    base_text@,
                    *calc,
                    lists(hidden@),
                    old(self)@.cache,
                    e@,
                ),
            },
    {
        let start: usize = self.n_past;
        let ghost states = lists(hidden@);
        let count: usize = self.registry.slow_layer_count();
        if hidden.len() == 1 {
            let request = SlowArDecodeLayerRequest {
                layer_start: 0,
                layer_count: count,
                position: start,
            };
            assert(states =~= seq![hidden@[0]@]);
            let backend = CpuMatmulBackend::new();
            let ghost before = self.cache@;
            let decoded = forward_slow_ar_block_decode_layers_with_backend(
                &backend,
                &self.gguf,
                file,
                &self.registry,
                request,
                hidden[0].as_slice(),
                &mut self.cache,
                base_text,
                &mut self.decode_profile,
                calc,
            );
            proof {
                lemma_cpu_layers(
                    backend,
                    self.gguf@,
                    file@,
                    request,
                    self.shape,
                    base_text@,
                    *calc,
                    hidden@[0]@,
                    before,
                    seen(decoded),
                    self.cache@,
                );
            }
            match decoded {
                Err(e) => Err(e),
                Ok(block) => {
                    let last = slice_to_vec(block.hidden.as_slice());
                    let ghost one = seq![block];
                    Ok((last, Ghost(one)))
                },
            }
        } else {
            let ghost before = self.cache@;
            match forward_slow_ar_block_prefill_layers_cached(
                &self.gguf,
                file,
                &self.registry,
                0,
                count,
                hidden.as_slice(),
                &mut self.cache,
                start,
                base_text,
                calc,
            ) {
                Err(e) => Err(e),
                Ok(out) => {
                    proof {
                        lemma_as_many_outputs(
                            self.gguf@,
                            file@,
                            0,
                            36,
                            self.shape,
                            start,
                            *calc,
                            states,
                            before,
                            out@,
                            self.cache@,
                        );
                    }
                    let last = slice_to_vec(out[out.len() - 1].hidden.as_slice());
                    Ok((last, Ghost(out@)))
                },
            }
        }
    }

    fn eval<F: Fn(Op, T, T, T) -> T>(
        &mut self,
        file: &[u8],
        flat_tokens: &[i32],
        base_text: &str,
        calc: &Calc<T, F>,
    ) -> (r: Result<SlowArStepResult<T>, InferError>)
        requires
            old(self).ready(),
            calc.works(),
        ensures
            final(self).ready(),
            match r {
                Ok(v) => or_else(
                    old(self)@.input_error(flat_tokens@.len()),
                    embed_error(
                        flat_tokens@,
                        old(self)@.graph,
                        old(self)@.semantic,
                        old(self)@.codebook,
                    ),
                ) is None && old(self)@.gives(
                    file@,
                    flat_tokens@,
                    *calc,
                    v,
                    final(self)@.cache,
                ) && final(self)@ == old(self)@.after(
                    token_count(flat_tokens@, old(self)@.graph),
                    final(self)@.cache,
                ),
                Err(e) => old(self)@.fails(file@, flat_tokens@, base_text@, *calc, e@)
                    && final(self)@ == old(self)@.after(0, final(self)@.cache),
            },
    {
        let ghost before = self@;
        let dim: usize = self.graph.codebook_input_dim() as usize;
        let size: usize = flat_tokens.len();
        match check_count(size, dim, Ghost(self.graph)) {
            Err(e) => {
                return Err(e);
            },
            Ok(_) => {},
        }
        let n: usize = size / dim;
        if n == 0 {
            return Err(InferError::text("expected at least one token"));
        }
        if n > self.max_seq_len - self.n_past {
            let a = dec_usize(self.n_past);
            let b = dec_usize(n);
            let c = dec_usize(self.max_seq_len);
            return Err(
                InferError::Message(
                    String::from_str("KV cache overflow: n_past=").concat(a.as_str()).concat(
                        " n_tokens=",
                    ).concat(b.as_str()).concat(" max_seq_len=").concat(c.as_str()),
                ),
            );
        }
        self.reset_decode_profile();
        let hidden = match embed_slow_ar_time_major(
            flat_tokens,
            &self.graph,
            &self.embeddings,
            calc,
        ) {
            Err(e) => {
                return Err(e);
            },
            Ok(v) => v,
        };
        let ghost states = lists(hidden@);
        let (last_hidden, out) = match self.run_layers(file, &hidden, base_text, calc) {
            Err(e) => {
                assert(before.fails(file@, flat_tokens@, base_text@, *calc, e@));
                return Err(e);
            },
            Ok(v) => v,
        };
        assert(run_gives(
            before.file,
            file@,
            0,
            36,
            SlowArLayerShape::of(before.graph.slow),
            before.n_past,
            *calc,
            states,
            before.cache,
            out@,
            self.cache@,
        ));
        let start = this_moment();
        let found = self.output_head.forward_logits(
            last_hidden.as_slice(),
            self.shape.rms_norm_eps,
            calc,
        );
        match found {
            Err(e) => {
                assert(before.ends_without_logits(file@, *calc, states, e@));
                assert(before.fails(file@, flat_tokens@, base_text@, *calc, e@));
                Err(e)
            },
            Ok(o) => {
                self.decode_profile.spend(SlowArProfileOp::OutputHead, &start);
                self.n_past = self.n_past + n;
                let r = SlowArStepResult { hidden: o.normalized, logits: o.logits };
                assert(before.gives(file@, flat_tokens@, *calc, r, self.cache@));
                Ok(r)
            },
        }
    }
}

} // verus!
