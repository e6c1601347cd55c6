//! What the slow transformer comes to: its cache, its layers in a row, and its logits.
use crate::attention::{
    tokens_are_kept_apart, write_error, written, AttentionScale, CacheView, GqaAttentionShape,
};
use crate::backend::is_norm;
use crate::gguf::FileView;
use crate::graph::{ArGraphSpec, DualArGraphSpec};
use crate::layer_laws::{
    is_answered, is_fed_forward, is_made_ready, slow_asking, slow_feeding,
    slow_tokens_are_fed, slow_tokens_are_made_ready, slow_tokens_ask_the_cache,
};
use crate::numeric::{gathered, pairs, Calc, Op};
use crate::slow_ar::SlowArLayerShape;
use crate::slow_embed::{are_embedded, has_bits, is_embedded};
use crate::slow_layer::{LayerView, SlowArLayerBlockOutput, SlowArLayerForwardOutput};
use crate::slow_run::{
    is_layer_step, is_layer_view, is_run, run_gives, RunState,
};
use crate::slow_sequence::stored;
use crate::slow_state::{SlowArStepResult, SlowStateView};
use crate::slow_weights::{are_logits, are_values};
use crate::sums::{adds_up, part, rows_lie_behind_each_other, sums_add_products};
use crate::tensor::{F16View, WideView};
use vstd::prelude::*;

verus! {

/// The sizes of the slow layers are those of the model, and scores are divided by the root of the size
/// of a head.
pub proof fn slow_shapes_are_the_models(g: ArGraphSpec)
    ensures
        ({
            let s = SlowArLayerShape::of(g);
            &&& s.hidden_size == g.embedding_length as usize
            &&& s.feed_forward_size == g.feed_forward_length as usize
            &&& s.head_count == g.head_count as usize
            &&& s.head_count_kv == g.head_count_kv as usize
            &&& s.head_dim == g.head_dim as usize
            &&& s.rope_base == g.rope_freq_base
            &&& s.rms_norm_eps == g.rms_norm_eps
            &&& s.scale() == AttentionScale::OfHead(g.head_dim as usize)
        }),
{
}

// ---------------------------------------------------------------------
// The cache
// ---------------------------------------------------------------------

/// Tokens that were stored one after another are found at their positions, each with its own key and
/// value.
pub proof fn stored_tokens_are_found<T>(
    c: CacheView<T>,
    layer: usize,
    start: int,
    kv: Seq<(Seq<T>, Seq<T>)>,
)
    requires
        c.full(),
        0 <= start,
        start + kv.len() <= usize::MAX,
        forall|i: int|
            0 <= i < kv.len() ==> write_error(
                c,
                layer,
                (start + i) as usize,
                (#[trigger] kv[i]).0.len(),
                kv[i].1.len(),
            ) is None,
    ensures
        stored(c, layer, start, kv).full(),
        stored(c, layer, start, kv).shaped_as(c),
        forall|i: int|
            0 <= i < kv.len() ==> {
                let after = stored(c, layer, start, kv);
                &&& after.key(layer, (start + i) as usize) == (#[trigger] kv[i]).0
                &&& after.value(layer, (start + i) as usize) == kv[i].1
            },
    decreases kv.len(),
{
    if kv.len() > 0 {
        let less = kv.drop_last();
        let n = less.len() as int;
        assert forall|i: int| 0 <= i < less.len() implies write_error(
            c,
            layer,
            (start + i) as usize,
            (#[trigger] less[i]).0.len(),
            less[i].1.len(),
        ) is None by {
            assert(less[i] == kv[i]);
        }
        stored_tokens_are_found(c, layer, start, less);
        let middle = stored(c, layer, start, less);
        let at = (start + n) as usize;
        let (key, value) = (kv[n].0, kv[n].1);
        assert(kv[n] == kv.last());
        assert(write_error(middle, layer, at, key.len(), value.len()) is None);
        let after = stored(c, layer, start, kv);
        assert(after == written(middle, layer, at, key, value));
        tokens_are_kept_apart(middle, layer, at, key, value, layer, at);
        assert forall|i: int| 0 <= i < kv.len() implies {
            &&& after.key(layer, (start + i) as usize) == (#[trigger] kv[i]).0
            &&& after.value(layer, (start + i) as usize) == kv[i].1
        } by {
            if i < n {
                let t = (start + i) as usize;
                assert(less[i] == kv[i]);
                tokens_are_kept_apart(middle, layer, at, key, value, layer, t);
            }
        }
    }
}

/// Storing tokens of a layer changes no other token of the cache.
pub proof fn other_tokens_are_kept<T>(
    c: CacheView<T>,
    layer: usize,
    start: int,
    kv: Seq<(Seq<T>, Seq<T>)>,
    l: usize,
    t: usize,
)
    requires
        c.full(),
        0 <= start,
        start + kv.len() <= usize::MAX,
        forall|i: int|
            0 <= i < kv.len() ==> write_error(
                c,
                layer,
                (start + i) as usize,
                (#[trigger] kv[i]).0.len(),
                kv[i].1.len(),
            ) is None,
        c.has(l, t),
        !(l == layer && start <= t < start + kv.len()),
    ensures
        stored(c, layer, start, kv).key(l, t) == c.key(l, t),
        stored(c, layer, start, kv).value(l, t) == c.value(l, t),
    decreases kv.len(),
{
    if kv.len() > 0 {
        let less = kv.drop_last();
        let n = less.len() as int;
        assert forall|i: int| 0 <= i < less.len() implies write_error(
            c,
            layer,
            (start + i) as usize,
            (#[trigger] less[i]).0.len(),
            less[i].1.len(),
        ) is None by {
            assert(less[i] == kv[i]);
        }
        other_tokens_are_kept(c, layer, start, less, l, t);
        stored_tokens_are_found(c, layer, start, less);
        let middle = stored(c, layer, start, less);
        let at = (start + n) as usize;
        assert(kv[n] == kv.last());
        assert(write_error(middle, layer, at, kv[n].0.len(), kv[n].1.len()) is None);
        tokens_are_kept_apart(middle, layer, at, kv[n].0, kv[n].1, l, t);
    }
}

// ---------------------------------------------------------------------
// Layers
// ---------------------------------------------------------------------

/// Whether a token of a slow layer is made ready at its position, and asks by its query the keys of
/// all tokens up to itself.
pub open spec fn is_slow_way<T: Copy, F: Fn(Op, T, T, T) -> T>(
    w: LayerView<T>,
    token: Seq<T>,
    c: CacheView<T>,
    layer: usize,
    position: usize,
    calc: Calc<T, F>,
    o: SlowArLayerForwardOutput<T>,
) -> bool {
    let width = c.head_dim * c.head_count_kv;
    let start = (layer * c.max_seq_len) * width;
    let count = (position + 1) * width;
    &&& is_made_ready(slow_asking(w), token, position as int, calc, o.query@, o.key@, o.value@)
    &&& is_answered(
        token,
        o.query@,
        part(c.keys, start, count),
        part(c.values, start, count),
        (GqaAttentionShape {
            head_count: w.shape.head_count,
            head_count_kv: c.head_count_kv,
            head_dim: c.head_dim,
            token_count: (position + 1) as usize,
            attn_scale: AttentionScale::OfHead(w.shape.head_dim),
        }),
        w.output_weight,
        w.shape.hidden_size as nat,
        None,
        calc,
        o.hidden@,
    )
}

/// A token of a slow layer asks itself and all tokens before it, and is then fed forward.
pub proof fn slow_tokens_ask_those_before<T: Copy, F: Fn(Op, T, T, T) -> T>(
    w: LayerView<T>,
    base_text: Seq<char>,
    token: Seq<T>,
    c: CacheView<T>,
    layer: usize,
    position: usize,
    calc: Calc<T, F>,
    o: SlowArLayerBlockOutput<T>,
)
    requires
        w.is_attended(token, c, layer, position, calc, o.attention),
        w.is_block(calc, o),
        w.shape.error(base_text) is None,
        c.full(),
        layer < c.block_count,
        position < c.max_seq_len,
    ensures
        is_slow_way(w, token, c, layer, position, calc, o.attention),
        is_fed_forward(slow_feeding(w), o.attention.hidden@, calc, o.hidden@),
{
    let a = o.attention;
    slow_tokens_are_made_ready(
        w,
        base_text,
        token,
        position,
        calc,
        a.normalized@,
        a.query@,
        a.key@,
        a.value@,
    );
    slow_tokens_ask_the_cache(
        w,
        token,
        a.query@,
        c,
        layer,
        (position + 1) as usize,
        calc,
        a.attention@,
        a.projected@,
        a.hidden@,
    );
    slow_tokens_are_fed(w, a.hidden@, calc, o.feed_forward);
}

/// Whether the layer of a number leads from hidden states and a cache to others.
#[verifier::opaque]
pub open spec fn layer_leads<T: Copy, F: Fn(Op, T, T, T) -> T>(
    f: FileView,
    file: Seq<u8>,
    layer: int,
    shape: SlowArLayerShape,
    start: usize,
    calc: Calc<T, F>,
    a: RunState<T>,
    out: Seq<SlowArLayerBlockOutput<T>>,
    b: RunState<T>,
) -> bool {
    exists|w: LayerView<T>|
        #[trigger] is_layer_view(f, file, layer as usize, shape, calc, w) && w.is_block_sequence(
            a.hidden,
            a.cache,
            layer as usize,
            start,
            calc,
            out,
            b.cache,
        )
}

/// Whether layers in a row lead along these states: each is given what the one before it gave.
pub open spec fn is_slow_run_way<T: Copy, F: Fn(Op, T, T, T) -> T>(
    f: FileView,
    file: Seq<u8>,
    first: int,
    count: int,
    shape: SlowArLayerShape,
    start: usize,
    calc: Calc<T, F>,
    states: Seq<RunState<T>>,
    outs: Seq<Seq<SlowArLayerBlockOutput<T>>>,
) -> bool {
    &&& states.len() == count + 1
    &&& outs.len() == count
    &&& forall|k: int|
        0 <= k < count ==> layer_leads(
            f,
            file,
            first + k,
            shape,
            start,
            calc,
            states[k],
            #[trigger] outs[k],
            states[k + 1],
        )
    &&& forall|k: int, i: int|
        0 <= k < count && 0 <= i < outs[k].len() ==> states[k + 1].hidden[i]
            == (#[trigger] outs[k][i]).hidden@
    &&& forall|k: int|
        0 <= k < count ==> states[k + 1].hidden.len() == (#[trigger] outs[k]).len()
}

/// What layers in a row give is what the last of them gives: the first one works on the hidden states
/// and the cache that are there, and each other one on what the one before it left.
pub proof fn slow_layers_follow_each_other<T: Copy, F: Fn(Op, T, T, T) -> T>(
    f: FileView,
    file: Seq<u8>,
    first: usize,
    count: usize,
    shape: SlowArLayerShape,
    start: usize,
    calc: Calc<T, F>,
    hidden: Seq<Seq<T>>,
    before: CacheView<T>,
    out: Seq<SlowArLayerBlockOutput<T>>,
    after: CacheView<T>,
)
    requires
        run_gives(f, file, first, count, shape, start, calc, hidden, before, out, after),
        first + count <= usize::MAX,
        count > 0,
    ensures
        exists|states: Seq<RunState<T>>, outs: Seq<Seq<SlowArLayerBlockOutput<T>>>|
            {
                &&& #[trigger] is_slow_run_way(
                    f,
                    file,
                    first as int,
                    count as int,
                    shape,
                    start,
                    calc,
                    states,
                    outs,
                )
                &&& states[0].hidden == hidden
                &&& states[0].cache == before
                &&& outs[count - 1] == out
                &&& states[count as int].cache == after
            },
{
    let (states, outs) = choose|
        states: Seq<RunState<T>>,
        outs: Seq<Seq<SlowArLayerBlockOutput<T>>>,
    |
        {
            &&& #[trigger] is_run(f, file, first, shape, start, calc, states, outs)
            &&& outs.len() == count
            &&& states[0] == (RunState { hidden, cache: before })
            &&& outs.last() == out
            &&& states.last().cache == after
        };
    assert forall|k: int| 0 <= k < count implies layer_leads(
        f,
        file,
        first + k,
        shape,
        start,
        calc,
        states[k],
        #[trigger] outs[k],
        states[k + 1],
    ) && states[k + 1].hidden == crate::slow_run::block_hiddens(outs[k]) by {
        reveal(layer_leads);
        assert(is_layer_step(
            f,
            file,
            (first + k) as usize,
            shape,
            start,
            calc,
            states[k],
            outs[k],
            states[k + 1],
        ));
    }
    assert forall|k: int| 0 <= k < count implies states[k + 1].hidden.len()
        == (#[trigger] outs[k]).len() by {
        assert(states[k + 1].hidden == crate::slow_run::block_hiddens(outs[k]));
    }
    assert forall|k: int, i: int| 0 <= k < count && 0 <= i < outs[k].len() implies states[k
        + 1].hidden[i] == (#[trigger] outs[k][i]).hidden@ by {
        assert(states[k + 1].hidden == crate::slow_run::block_hiddens(outs[k]));
    }
    assert(is_slow_run_way(
        f,
        file,
        first as int,
        count as int,
        shape,
        start,
        calc,
        states,
        outs,
    ));
}

// ---------------------------------------------------------------------
// Logits
// ---------------------------------------------------------------------

/// Whether values are those of the half-precision numbers in a row of a table that stays as bytes.
pub open spec fn are_halves<T: Copy, F: Fn(Op, T, T, T) -> T>(
    bytes: Seq<u8>,
    at: int,
    calc: Calc<T, F>,
    values: Seq<T>,
) -> bool {
    forall|k: int|
        0 <= k < values.len() ==> calc.gives(
            Op::Half((bytes[2 * (at + k)] + 256 * bytes[2 * (at + k) + 1]) as u16),
            calc.zero,
            calc.zero,
            calc.zero,
            #[trigger] values[k],
        )
}

/// The logit of token `o` is the product of the normed hidden state with row `o` of the table of
/// tokens; the state is normed by the weights of the output head.
pub proof fn logits_are_products_with_token_rows<T: Copy, F: Fn(Op, T, T, T) -> T>(
    norm: WideView,
    embeddings: F16View,
    hidden: Seq<T>,
    eps: u32,
    calc: Calc<T, F>,
    normalized: Seq<T>,
    logits: Seq<T>,
    o: int,
)
    requires
        are_logits(norm, embeddings, hidden, eps, calc, normalized, logits),
        0 <= o < logits.len(),
        0 <= 2 * (o * normalized.len() + normalized.len()) <= embeddings.bytes.len(),
    ensures
        logits.len() == embeddings.dimensions[1],
        exists|weight: Seq<T>|
            {
                &&& weight.len() == norm.values.len()
                &&& forall|i: int|
                    0 <= i < weight.len() ==> has_bits(norm.values[i], calc, #[trigger] weight[i])
                &&& #[trigger] is_norm(hidden, weight, eps, calc, normalized)
            },
        exists|line: Seq<T>|
            {
                &&& line.len() == normalized.len()
                &&& #[trigger] are_halves(embeddings.bytes, o * normalized.len(), calc, line)
                &&& adds_up(calc.zero, normalized, line, calc, logits[o])
            },
{
    lemma_head_norm(norm, embeddings, hidden, eps, calc, normalized, logits);
    lemma_token_row(norm, embeddings, hidden, eps, calc, normalized, logits, o);
}

proof fn lemma_head_norm<T: Copy, F: Fn(Op, T, T, T) -> T>(
    norm: WideView,
    embeddings: F16View,
    hidden: Seq<T>,
    eps: u32,
    calc: Calc<T, F>,
    normalized: Seq<T>,
    logits: Seq<T>,
)
    requires
        are_logits(norm, embeddings, hidden, eps, calc, normalized, logits),
    ensures
        exists|weight: Seq<T>|
            {
                &&& weight.len() == norm.values.len()
                &&& forall|i: int|
                    0 <= i < weight.len() ==> has_bits(norm.values[i], calc, #[trigger] weight[i])
                &&& #[trigger] is_norm(hidden, weight, eps, calc, normalized)
            },
{
    let weight = choose|weight: Seq<T>|
        #[trigger] are_values(norm.values, calc, weight) && is_norm(
            hidden,
            weight,
            eps,
            calc,
            normalized,
        );
    assert(is_norm(hidden, weight, eps, calc, normalized));
}

proof fn lemma_token_row<T: Copy, F: Fn(Op, T, T, T) -> T>(
    norm: WideView,
    embeddings: F16View,
    hidden: Seq<T>,
    eps: u32,
    calc: Calc<T, F>,
    normalized: Seq<T>,
    logits: Seq<T>,
    o: int,
)
    requires
        are_logits(norm, embeddings, hidden, eps, calc, normalized, logits),
        0 <= o < logits.len(),
        0 <= 2 * (o * normalized.len() + normalized.len()) <= embeddings.bytes.len(),
    ensures
        exists|line: Seq<T>|
            {
                &&& line.len() == normalized.len()
                &&& #[trigger] are_halves(embeddings.bytes, o * normalized.len(), calc, line)
                &&& adds_up(calc.zero, normalized, line, calc, logits[o])
            },
{
    let w = normalized.len() as int;
    let bytes = embeddings.bytes;
    assert(crate::tensor::is_half_product(normalized, bytes, o, calc, logits[o]));
    let line = choose|line: Seq<T>|
        #[trigger] crate::tensor::is_half_row(line, bytes, o, w, calc) && gathered(
            pairs(normalized, line),
            calc.zero,
            calc,
            logits[o],
        );
    let start = o * w;
    crate::arith::lemma_rows_monotone(0, o, w);
    assert forall|k: int| 0 <= k < line.len() implies calc.gives(
        Op::Half((bytes[2 * (start + k)] + 256 * bytes[2 * (start + k) + 1]) as u16),
        calc.zero,
        calc.zero,
        calc.zero,
        #[trigger] line[k],
    ) by {
        let at = start + k;
        assert(calc.reads_half(crate::tensor::half_at(bytes, at), line[k]));
        let two = bytes.subrange(2 * at, 2 * at + 2);
        assert(two[0] == bytes[2 * at]);
        assert(two[1] == bytes[2 * at + 1]);
    }
    assert(are_halves(bytes, start, calc, line));
    sums_add_products(pairs(normalized, line), calc.zero, calc, normalized, line, logits[o]);
}

/// Whether tokens are the hidden states of numbers, each of its own: those from as many numbers on as
/// the tokens before it have.
pub open spec fn are_embedded_apart<T: Copy, F: Fn(Op, T, T, T) -> T>(
    flat: Seq<i32>,
    graph: DualArGraphSpec,
    semantic: WideView,
    codebook: WideView,
    calc: Calc<T, F>,
    tokens: Seq<Seq<T>>,
) -> bool {
    let dim = graph.num_codebooks + 1;
    &&& tokens.len() == flat.len() as int / dim
    &&& forall|i: int|
        0 <= i < tokens.len() ==> is_embedded(
            part(flat, i * dim, dim),
            graph,
            semantic,
            codebook,
            calc,
            #[trigger] tokens[i],
        )
}

/// Each token is embedded by its own numbers.
pub proof fn tokens_are_embedded_apart<T: Copy, F: Fn(Op, T, T, T) -> T>(
    flat: Seq<i32>,
    graph: DualArGraphSpec,
    semantic: WideView,
    codebook: WideView,
    calc: Calc<T, F>,
    tokens: Seq<Seq<T>>,
)
    requires
        are_embedded(flat, graph, semantic, codebook, calc, tokens),
    ensures
        are_embedded_apart(flat, graph, semantic, codebook, calc, tokens),
{
    let dim = graph.num_codebooks + 1;
    assert forall|i: int| 0 <= i < tokens.len() implies is_embedded(
        part(flat, i * dim, dim),
        graph,
        semantic,
        codebook,
        calc,
        #[trigger] tokens[i],
    ) by {
        vstd::arithmetic::div_mod::lemma_fundamental_div_mod(flat.len() as int, dim);
        vstd::arithmetic::div_mod::lemma_mod_bound(flat.len() as int, dim);
        crate::arith::lemma_rows_monotone(i + 1, flat.len() as int / dim, dim);
        crate::arith::lemma_next_row(i, dim);
        vstd::arithmetic::mul::lemma_mul_is_commutative(dim, flat.len() as int / dim);
        rows_lie_behind_each_other(flat, i, dim);
    }
}

/// A step of the slow transformer embeds its tokens, lets all 36 layers work on them from the number of
/// tokens on that it has seen, and gives the logits of the last token.
pub proof fn steps_give_the_logits_of_the_last_token<T: Copy, F: Fn(Op, T, T, T) -> T>(
    s: SlowStateView<T>,
    file: Seq<u8>,
    flat: Seq<i32>,
    calc: Calc<T, F>,
    r: SlowArStepResult<T>,
    after: CacheView<T>,
)
    requires
        s.gives(file, flat, calc, r, after),
    ensures
        exists|tokens: Seq<Seq<T>>, out: Seq<SlowArLayerBlockOutput<T>>|
            {
                &&& #[trigger] are_embedded_apart(
                    flat,
                    s.graph,
                    s.semantic,
                    s.codebook,
                    calc,
                    tokens,
                )
                &&& #[trigger] run_gives(
                    s.file,
                    file,
                    0,
                    36,
                    SlowArLayerShape::of(s.graph.slow),
                    s.n_past,
                    calc,
                    tokens,
                    s.cache,
                    out,
                    after,
                )
                &&& out.len() > 0
                &&& are_logits(
                    s.norm,
                    s.embeddings,
                    out[out.len() - 1].hidden@,
                    s.graph.slow.rms_norm_eps,
                    calc,
                    r.hidden@,
                    r.logits@,
                )
            },
{
    let (hidden, out) = choose|hidden: Seq<Seq<T>>, out: Seq<SlowArLayerBlockOutput<T>>|
        {
            &&& #[trigger] are_embedded(flat, s.graph, s.semantic, s.codebook, calc, hidden)
            &&& #[trigger] run_gives(
                s.file,
                file,
                0,
                36,
                SlowArLayerShape::of(s.graph.slow),
                s.n_past,
                calc,
                hidden,
                s.cache,
                out,
                after,
            )
            &&& out.len() > 0
            &&& are_logits(
                s.norm,
                s.embeddings,
                out.last().hidden@,
                s.graph.slow.rms_norm_eps,
                calc,
                r.hidden@,
                r.logits@,
            )
        };
    tokens_are_embedded_apart(flat, s.graph, s.semantic, s.codebook, calc, hidden);
}

} // verus!
