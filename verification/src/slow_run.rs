//! Several layers of the slow transformer in a row, and a run that remembers its tokens.
use crate::attention::{cache_size_error, written, CacheView, SlowArKvCache};
use crate::error::{message, ErrorView, InferError};
use crate::gguf::{tensors_inside, FileView, GgufFile};
use crate::graph::DualArGraphSpec;
use crate::numeric::{Calc, Op};
use crate::registry::{slow_name, TransformerTensorRegistry};
use crate::sizes::{checked_add, is_finding, or_else, sum_of};
use crate::backend::CpuMatmulBackend;
use crate::slow_ar::{SlowArDecodeProfile, SlowArLayerShape};
use crate::slow_backend::seen;
use crate::slow_decode::{
    forward_slow_ar_block_decode_layers_with_backend, lemma_cpu_layers,
};
use crate::slow_layer::{LayerView, SlowArLayerBlockOutput};
use crate::slow_sequence::{attention_parts, first_of, lists, output_kv, stored};
use crate::slow_weights::{are_values, layer_error, wide_of, SlowArLayerF16Weights};
use crate::text::{dec, dec_usize};
use vstd::prelude::*;
use vstd::slice::slice_to_vec;
use vstd::string::*;

verus! {

// ---------------------------------------------------------------------
// Layers in a row
// ---------------------------------------------------------------------

/// What is wrong with a range of layers, if anything.
pub open spec fn range_error(first: usize, count: usize, available: nat) -> Option<ErrorView> {
    if count == 0 {
        Some(message("layer_count must be greater than zero"@))
    } else {
        match sum_of(first as nat, count as nat, "layer_end"@) {
            Err(e) => Some(e),
            Ok(end) => if end > available {
                Some(
                    message(
                        "slow layer range out of bounds: start="@ + dec(first as nat) + " count="@
                            + dec(count as nat) + " available="@ + dec(available),
                    ),
                )
            } else {
                None
            },
        }
    }
}

/// Checks a range of layers.
pub fn check_range(first: usize, count: usize, available: usize) -> (r: Result<(), InferError>)
    ensures
        is_finding(r, range_error(first, count, available as nat)),
{
    if count == 0 {
        return Err(InferError::text("layer_count must be greater than zero"));
    }
    let end: usize = match checked_add(first, count, "layer_end") {
        Err(e) => {
            return Err(e);
        },
        Ok(n) => n,
    };
    if end > available {
        let a = dec_usize(first);
        let b = dec_usize(count);
        let c = dec_usize(available);
        return Err(
            InferError::Message(
                String::from_str("slow layer range out of bounds: start=").concat(
                    a.as_str(),
                ).concat(" count=").concat(b.as_str()).concat(" available=").concat(c.as_str()),
            ),
        );
    }
    Ok(())
}

/// Whether these are the weights of a layer of a file, as values.
pub open spec fn is_layer_view<T: Copy, F: Fn(Op, T, T, T) -> T>(
    f: FileView,
    file: Seq<u8>,
    layer: usize,
    shape: SlowArLayerShape,
    calc: Calc<T, F>,
    w: LayerView<T>,
) -> bool {
    &&& w.shape == shape
    &&& are_values(bits_of(f, file, layer, ".attention_norm.weight"@), calc, w.attention_norm_weight)
    &&& are_values(bits_of(f, file, layer, ".attention.q_norm.weight"@), calc, w.q_norm_weight)
    &&& are_values(bits_of(f, file, layer, ".attention.k_norm.weight"@), calc, w.k_norm_weight)
    &&& are_values(bits_of(f, file, layer, ".attention.wqkv.weight"@), calc, w.wqkv_weight)
    &&& are_values(bits_of(f, file, layer, ".attention.wo.weight"@), calc, w.output_weight)
    &&& are_values(bits_of(f, file, layer, ".ffn_norm.weight"@), calc, w.ffn_norm_weight)
    &&& are_values(
        bits_of(f, file, layer, ".feed_forward.w1.weight"@),
        calc,
        w.feed_forward_w1_weight,
    )
    &&& are_values(
        bits_of(f, file, layer, ".feed_forward.w2.weight"@),
        calc,
        w.feed_forward_w2_weight,
    )
    &&& are_values(
        bits_of(f, file, layer, ".feed_forward.w3.weight"@),
        calc,
        w.feed_forward_w3_weight,
    )
}

/// The bits of the elements of a layer's tensor.
pub open spec fn bits_of(f: FileView, file: Seq<u8>, layer: usize, tail: Seq<char>) -> Seq<u32> {
    wide_of(f, file, slow_name(layer, tail))->Ok_0.values
}

/// Hidden states of tokens, and the cache.
pub ghost struct RunState<T> {
    pub hidden: Seq<Seq<T>>,
    pub cache: CacheView<T>,
}

/// The hidden states that a layer gives.
pub open spec fn block_hiddens<T>(out: Seq<SlowArLayerBlockOutput<T>>) -> Seq<Seq<T>> {
    out.map_values(|b: SlowArLayerBlockOutput<T>| b.hidden@)
}

/// Whether a layer of a file leads from one state to the next, with the given outputs.
pub open spec fn is_layer_step<T: Copy, F: Fn(Op, T, T, T) -> T>(
    f: FileView,
    file: Seq<u8>,
    layer: usize,
    shape: SlowArLayerShape,
    start: usize,
    calc: Calc<T, F>,
    a: RunState<T>,
    out: Seq<SlowArLayerBlockOutput<T>>,
    b: RunState<T>,
) -> bool {
    exists|w: LayerView<T>|
        #[trigger] is_layer_view(f, file, layer, shape, calc, w) && w.is_block_sequence(
            a.hidden,
            a.cache,
            layer,
            start,
            calc,
            out,
            b.cache,
        ) && b.hidden == block_hiddens(out)
}

/// Whether layers of a file, from the first on, lead along the states with the given outputs.
pub open spec fn is_run<T: Copy, F: Fn(Op, T, T, T) -> T>(
    f: FileView,
    file: Seq<u8>,
    first: usize,
    shape: SlowArLayerShape,
    start: usize,
    calc: Calc<T, F>,
    states: Seq<RunState<T>>,
    outs: Seq<Seq<SlowArLayerBlockOutput<T>>>,
) -> bool {
    &&& states.len() == outs.len() + 1
    &&& forall|k: int|
        0 <= k < outs.len() ==> is_layer_step(
            f,
            file,
            (first + k) as usize,
            shape,
            start,
            calc,
            states[k],
            #[trigger] outs[k],
            states[k + 1],
        )
}

/// Whether a layer fails with an error on a state.
pub open spec fn layer_fails<T: Copy, F: Fn(Op, T, T, T) -> T>(
    f: FileView,
    file: Seq<u8>,
    layer: usize,
    shape: SlowArLayerShape,
    start: usize,
    base_text: Seq<char>,
    calc: Calc<T, F>,
    a: RunState<T>,
    e: ErrorView,
) -> bool {
    ||| layer_error(f, file, layer, shape) == Some(e)
    ||| layer_error(f, file, layer, shape) is None && exists|w: LayerView<T>|
        #[trigger] is_layer_view(f, file, layer, shape, calc, w) && w.prefill_error(
            a.hidden,
            a.cache,
            layer,
            start,
            base_text,
        ) == Some(e)
}

/// Whether the layers give these outputs for the last of them, and leave this cache.
pub open spec fn run_gives<T: Copy, F: Fn(Op, T, T, T) -> T>(
    f: FileView,
    file: Seq<u8>,
    first: usize,
    count: usize,
    shape: SlowArLayerShape,
    start: usize,
    calc: Calc<T, F>,
    hidden: Seq<Seq<T>>,
    before: CacheView<T>,
    out: Seq<SlowArLayerBlockOutput<T>>,
    after: CacheView<T>,
) -> bool {
    exists|states: Seq<RunState<T>>, outs: Seq<Seq<SlowArLayerBlockOutput<T>>>|
        {
            &&& #[trigger] is_run(f, file, first, shape, start, calc, states, outs)
            &&& outs.len() == count
            &&& states[0] == (RunState { hidden, cache: before })
            &&& outs.last() == out
            &&& states.last().cache == after
        }
}

/// Whether some layer is the first to fail, and with this error.
pub open spec fn run_fails<T: Copy, F: Fn(Op, T, T, T) -> T>(
    f: FileView,
    file: Seq<u8>,
    first: usize,
    count: usize,
    shape: SlowArLayerShape,
    start: usize,
    base_text: Seq<char>,
    calc: Calc<T, F>,
    hidden: Seq<Seq<T>>,
    before: CacheView<T>,
    e: ErrorView,
) -> bool {
    exists|states: Seq<RunState<T>>, outs: Seq<Seq<SlowArLayerBlockOutput<T>>>|
        {
            &&& #[trigger] is_run(f, file, first, shape, start, calc, states, outs)
            &&& outs.len() < count
            &&& states[0] == (RunState { hidden, cache: before })
            &&& layer_fails(
                f,
                file,
                (first + outs.len()) as usize,
                shape,
                start,
                base_text,
                calc,
                states.last(),
                e,
            )
        }
}

proof fn lemma_run_one<T: Copy, F: Fn(Op, T, T, T) -> T>(
    f: FileView,
    file: Seq<u8>,
    first: usize,
    shape: SlowArLayerShape,
    start: usize,
    calc: Calc<T, F>,
    states: Seq<RunState<T>>,
    outs: Seq<Seq<SlowArLayerBlockOutput<T>>>,
    out: Seq<SlowArLayerBlockOutput<T>>,
    next: RunState<T>,
)
    requires
        is_run(f, file, first, shape, start, calc, states, outs),
        is_layer_step(
            f,
            file,
            (first + outs.len()) as usize,
            shape,
            start,
            calc,
            states.last(),
            out,
            next,
        ),
    ensures
        is_run(f, file, first, shape, start, calc, states.push(next), outs.push(out)),
{
    let s2 = states.push(next);
    let o2 = outs.push(out);
    assert forall|k: int| 0 <= k < o2.len() implies is_layer_step(
        f,
        file,
        (first + k) as usize,
        shape,
        start,
        calc,
        s2[k],
        #[trigger] o2[k],
        s2[k + 1],
    ) by {
        if k < outs.len() {
            assert(o2[k] == outs[k]);
            assert(s2[k] == states[k] && s2[k + 1] == states[k + 1]);
        }
    }
}

fn hiddens_of<T: Copy>(out: &Vec<SlowArLayerBlockOutput<T>>) -> (r: Vec<Vec<T>>)
    ensures
        lists(r@) == block_hiddens(out@),
{
    let mut hidden: Vec<Vec<T>> = Vec::new();
    let mut i: usize = 0;
    while i < out.len()
        invariant
            i <= out@.len(),
            hidden@.len() == i,
            forall|k: int| 0 <= k < i ==> (#[trigger] hidden@[k])@ == out@[k].hidden@,
        decreases out@.len() - i,
    {
        hidden.push(slice_to_vec(out[i].hidden.as_slice()));
        i = i + 1;
    }
    assert(lists(hidden@) =~= block_hiddens(out@));
    hidden
}

fn copy_lists<T: Copy>(v: &[Vec<T>]) -> (r: Vec<Vec<T>>)
    ensures
        lists(r@) == lists(v@),
{
    let mut out: Vec<Vec<T>> = Vec::new();
    let mut i: usize = 0;
    while i < v.len()
        invariant
            i <= v@.len(),
            out@.len() == i,
            forall|k: int| 0 <= k < i ==> (#[trigger] out@[k])@ == v@[k]@,
        decreases v@.len() - i,
    {
        out.push(slice_to_vec(v[i].as_slice()));
        i = i + 1;
    }
    assert(lists(out@) =~= lists(v@));
    out
}

/// Lets layers of a model file work on tokens at once, one layer after another.
pub fn forward_slow_ar_block_prefill_layers_cached<T: Copy, F: Fn(Op, T, T, T) -> T>(
    gguf: &GgufFile,
    file: &[u8],
    registry: &TransformerTensorRegistry,
    layer_start: usize,
    layer_count: usize,
    hidden_tokens: &[Vec<T>],
    cache: &mut SlowArKvCache<T>,
    start_position: usize,
    base_text: &str,
    calc: &Calc<T, F>,
) -> (r: Result<Vec<SlowArLayerBlockOutput<T>>, InferError>)
    requires
        calc.works(),
        tensors_inside(gguf@),
        registry.complete(),
        old(cache)@.full(),
    ensures
        final(cache)@.full(),
        final(cache)@.shaped_as(old(cache)@),
        match r {
            Ok(out) => range_error(layer_start, layer_count, 36) is None && run_gives(
                gguf@,
                file@,
                layer_start,
                layer_count,
                SlowArLayerShape::of(registry.graph().slow),
                start_position,
                *calc,
                lists(hidden_tokens@),
                old(cache)@,
                out@,
                final(cache)@,
            ),
            Err(e) => if range_error(layer_start, layer_count, 36) is Some {
                range_error(layer_start, layer_count, 36) == Some(e@) && final(cache)@ == old(cache)@
            } else {
                run_fails(
                    gguf@,
                    file@,
                    layer_start,
                    layer_count,
                    SlowArLayerShape::of(registry.graph().slow),
                    start_position,
                    base_text@,
                    *calc,
                    lists(hidden_tokens@),
                    old(cache)@,
                    e@,
                )
            },
        },
{
    match check_range(layer_start, layer_count, registry.slow_layer_count()) {
        Err(e) => {
            return Err(e);
        },
        Ok(_) => {},
    }
    let shape = match SlowArLayerShape::from_ar_graph_spec(&registry.graph_spec().slow) {
        Err(e) => {
            return Err(e);
        },
        Ok(s) => s,
    };
    let mut hidden = copy_lists(hidden_tokens);
    let mut out: Vec<SlowArLayerBlockOutput<T>> = Vec::new();
    let ghost initial = RunState { hidden: lists(hidden_tokens@), cache: cache@ };
    let ghost mut states: Seq<RunState<T>> = seq![initial];
    let ghost mut outs: Seq<Seq<SlowArLayerBlockOutput<T>>> = Seq::empty();
    let mut k: usize = 0;
    while k < layer_count
        invariant
            k <= layer_count,
            layer_start + layer_count <= 36,
            calc.works(),
            tensors_inside(gguf@),
            registry.complete(),
            shape == SlowArLayerShape::of(registry.graph().slow),
            cache@.full(),
            cache@.shaped_as(old(cache)@),
            range_error(layer_start, layer_count, 36) is None,
            initial == (RunState { hidden: lists(hidden_tokens@), cache: old(cache)@ }),
            is_run(
                gguf@,
                file@,
                layer_start,
                shape,
                start_position,
                *calc,
                states,
                outs,
            ),
            outs.len() == k,
            states[0] == initial,
            states.last() == (RunState { hidden: lists(hidden@), cache: cache@ }),
            k > 0 ==> outs.last() == out@,
        decreases layer_count - k,
    {
        let layer: usize = layer_start + k;
        let ghost now = states.last();
        let weights = match SlowArLayerF16Weights::from_gguf_layer(gguf, file, registry, layer) {
            Err(e) => {
                assert(layer_fails(
                    gguf@,
                    file@,
                    layer,
                    shape,
                    start_position,
                    base_text@,
                    *calc,
                    now,
                    e@,
                ));
                return Err(e);
            },
            Ok(w) => w,
        };
        let values = weights.values(calc);
        let skeleton = values.skeleton(shape);
        assert(is_layer_view(gguf@, file@, layer, shape, *calc, skeleton@));
        match skeleton.forward_block_prefill_sequence(
            hidden.as_slice(),
            cache,
            layer,
            start_position,
            base_text,
            calc,
        ) {
            Err(e) => {
                assert(layer_fails(
                    gguf@,
                    file@,
                    layer,
                    shape,
                    start_position,
                    base_text@,
                    *calc,
                    now,
                    e@,
                ));
                return Err(e);
            },
            Ok(v) => {
                out = v;
            },
        }
        hidden = hiddens_of(&out);
        proof {
            let next = RunState { hidden: lists(hidden@), cache: cache@ };
            assert(is_layer_step(
                gguf@,
                file@,
                layer,
                shape,
                start_position,
                *calc,
                now,
                out@,
                next,
            ));
            lemma_run_one(
                gguf@,
                file@,
                layer_start,
                shape,
                start_position,
                *calc,
                states,
                outs,
                out@,
                next,
            );
            states = states.push(next);
            outs = outs.push(out@);
        }
        k = k + 1;
    }
    assert(is_run(gguf@, file@, layer_start, shape, start_position, *calc, states, outs));
    Ok(out)
}

/// Lets layers of a model file work on tokens at once, with a cache made for them.
pub fn forward_slow_ar_block_prefill_layers<T: Copy, F: Fn(Op, T, T, T) -> T>(
    gguf: &GgufFile,
    file: &[u8],
    registry: &TransformerTensorRegistry,
    layer_start: usize,
    layer_count: usize,
    hidden_tokens: &[Vec<T>],
    start_position: usize,
    base_text: &str,
    calc: &Calc<T, F>,
) -> (r: Result<Vec<SlowArLayerBlockOutput<T>>, InferError>)
    requires
        calc.works(),
        tensors_inside(gguf@),
        registry.complete(),
    ensures
        match r {
            Ok(out) => range_error(layer_start, layer_count, 36) is None && exists|
                before: CacheView<T>,
                after: CacheView<T>,
            |
                is_empty_cache(
                    before,
                    registry.graph(),
                    (start_position + hidden_tokens@.len()) as usize,
                    calc.zero,
                ) && #[trigger] run_gives(
                    gguf@,
                    file@,
                    layer_start,
                    layer_count,
                    SlowArLayerShape::of(registry.graph().slow),
                    start_position,
                    *calc,
                    lists(hidden_tokens@),
                    before,
                    out@,
                    after,
                ),
            Err(e) => {
                let size = sum_of(start_position as nat, hidden_tokens@.len(), "max_seq_len"@);
                let early = match size {
                    Err(f) => Some(f),
                    Ok(n) => or_else(
                        cache_size_error(registry.graph().kv_cache, n),
                        range_error(layer_start, layer_count, 36),
                    ),
                };
                if early is Some {
                    early == Some(e@)
                } else {
                    exists|before: CacheView<T>|
                        is_empty_cache(before, registry.graph(), size->Ok_0, calc.zero)
                            && #[trigger] run_fails(
                            gguf@,
                            file@,
                            layer_start,
                            layer_count,
                            SlowArLayerShape::of(registry.graph().slow),
                            start_position,
                            base_text@,
                            *calc,
                            lists(hidden_tokens@),
                            before,
                            e@,
                        )
                }
            },
        },
{
    let max_seq_len: usize = match checked_add(
        start_position,
        hidden_tokens.len(),
        "max_seq_len",
    ) {
        Err(e) => {
            return Err(e);
        },
        Ok(n) => n,
    };
    let mut cache = match SlowArKvCache::new(
        registry.graph_spec().kv_cache,
        max_seq_len,
        calc.zero,
    ) {
        Err(e) => {
            return Err(e);
        },
        Ok(c) => c,
    };
    let ghost before = cache@;
    assert(is_empty_cache(before, registry.graph(), max_seq_len, calc.zero));
    forward_slow_ar_block_prefill_layers_cached(
        gguf,
        file,
        registry,
        layer_start,
        layer_count,
        hidden_tokens,
        &mut cache,
        start_position,
        base_text,
        calc,
    )
}

/// Whether a cache is a new one for a transformer.
pub open spec fn is_empty_cache<T>(
    c: CacheView<T>,
    graph: DualArGraphSpec,
    max_seq_len: usize,
    zero: T,
) -> bool {
    &&& c.full()
    &&& c.head_dim == graph.kv_cache.head_dim
    &&& c.head_count_kv == graph.kv_cache.head_count_kv
    &&& c.max_seq_len == max_seq_len
    &&& c.block_count == graph.kv_cache.block_count
    &&& forall|i: int| 0 <= i < c.keys.len() ==> #[trigger] c.keys[i] == zero
    &&& forall|i: int| 0 <= i < c.values.len() ==> #[trigger] c.values[i] == zero
}

// ---------------------------------------------------------------------
// One token
// ---------------------------------------------------------------------

/// Which layers are to work on a token, and at which position it stands.
#[derive(Debug, Clone, Copy, PartialEq, Eq, Structural)]
pub struct SlowArDecodeLayerRequest {
    pub layer_start: usize,
    pub layer_count: usize,
    pub position: usize,
}

pub(crate) proof fn lemma_one_token_error<T: Copy>(
    w: LayerView<T>,
    hidden: Seq<T>,
    c: CacheView<T>,
    layer: usize,
    position: usize,
    base_text: Seq<char>,
)
    ensures
        w.prefill_error(seq![hidden], c, layer, position, base_text) == w.decode_error(
            hidden.len(),
            c,
            layer,
            position,
            base_text,
        ),
{
    reveal_with_fuel(first_of, 2);
    let p = w.prepare_errors(seq![hidden], position, base_text);
    let s = w.store_errors(c, layer, position);
    let a = w.ask_errors(c, layer, position);
    assert(p(0) == w.error(hidden.len(), base_text));
    assert(s(0) == w.store_error(c, layer, position));
    assert(a(0) == w.ask_error(c, layer, position));
    assert(first_of(p, 0, 1) == p(0));
    assert(first_of(s, 0, 1) == s(0));
    assert(first_of(a, 0, 1) == a(0));
}

pub(crate) proof fn lemma_one_token_block<T: Copy, F: Fn(Op, T, T, T) -> T>(
    w: LayerView<T>,
    hidden: Seq<T>,
    before: CacheView<T>,
    layer: usize,
    position: usize,
    calc: Calc<T, F>,
    o: SlowArLayerBlockOutput<T>,
    after: CacheView<T>,
)
    requires
        after == written(before, layer, position, o.attention.key@, o.attention.value@),
        w.is_attended(hidden, after, layer, position, calc, o.attention),
        w.is_block(calc, o),
    ensures
        w.is_block_sequence(seq![hidden], before, layer, position, calc, seq![o], after),
{
    let parts = attention_parts(seq![o]);
    assert(parts =~= seq![o.attention]);
    let kv = output_kv(parts);
    assert(kv =~= seq![(o.attention.key@, o.attention.value@)]);
    assert(kv.drop_last() =~= Seq::empty());
    reveal_with_fuel(stored, 2);
    assert(after == stored(before, layer, position as int, kv));
}

/// Lets layers of a model file work on one token, one layer after another.
pub fn forward_slow_ar_block_decode_layers<T: Copy, F: Fn(Op, T, T, T) -> T>(
    gguf: &GgufFile,
    file: &[u8],
    registry: &TransformerTensorRegistry,
    request: SlowArDecodeLayerRequest,
    hidden: &[T],
    cache: &mut SlowArKvCache<T>,
    base_text: &str,
    calc: &Calc<T, F>,
) -> (r: Result<SlowArLayerBlockOutput<T>, InferError>)
    requires
        calc.works(),
        tensors_inside(gguf@),
        registry.complete(),
        old(cache)@.full(),
    ensures
        final(cache)@.full(),
        final(cache)@.shaped_as(old(cache)@),
        match r {
            Ok(out) => range_error(request.layer_start, request.layer_count, 36) is None
                && run_gives(
                gguf@,
                file@,
                request.layer_start,
                request.layer_count,
                SlowArLayerShape::of(registry.graph().slow),
                request.position,
                *calc,
                seq![hidden@],
                old(cache)@,
                seq![out],
                final(cache)@,
            ),
            Err(e) => if range_error(request.layer_start, request.layer_count, 36) is Some {
                range_error(request.layer_start, request.layer_count, 36) == Some(e@) && final(cache)@ == old(cache)@
            } else {
                run_fails(
                    gguf@,
                    file@,
                    request.layer_start,
                    request.layer_count,
                    SlowArLayerShape::of(registry.graph().slow),
                    request.position,
                    base_text@,
                    *calc,
                    seq![hidden@],
                    old(cache)@,
                    e@,
                )
            },
        },
{
    let backend = CpuMatmulBackend::new();
    let mut profile = SlowArDecodeProfile::zero();
    let r = forward_slow_ar_block_decode_layers_with_backend(
        &backend,
        gguf,
        file,
        registry,
        request,
        hidden,
        cache,
        base_text,
        &mut profile,
        calc,
    );
    proof {
        if range_error(request.layer_start, request.layer_count, 36) is None {
            lemma_cpu_layers(
                backend,
                gguf@,
                file@,
                request,
                SlowArLayerShape::of(registry.graph().slow),
                base_text@,
                *calc,
                hidden@,
                old(cache)@,
                seen(r),
                cache@,
            );
        }
    }
    r
}

} // verus!
