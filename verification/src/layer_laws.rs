//! What the layers of the transformers come to, token by token.
use crate::attention::{all_turned, are_answers, AttentionScale, GqaAttentionShape};
use crate::backend::{is_heads_norm, is_norm};
use crate::codec_weights::CodecTransformerLayerValues;
use crate::fast_ar::{flat, keys_of, values_of, FastArLayerShape, FastArLayerValues, PreparedToken};
use crate::numeric::{is_linear, Calc, Op};
use crate::slow_layer::{is_zipped, LayerView, SlowArLayerFeedForwardOutput};
use crate::sums::part;
use vstd::prelude::*;

verus! {

// ---------------------------------------------------------------------
// Parts of a layer
// ---------------------------------------------------------------------

/// Whether values come from those of a token by adding to each the one at its place.
pub open spec fn adds_to<T: Copy, F: Fn(Op, T, T, T) -> T>(
    token: Seq<T>,
    more: Seq<T>,
    calc: Calc<T, F>,
    out: Seq<T>,
) -> bool {
    &&& out.len() == token.len()
    &&& forall|i: int|
        0 <= i < token.len() ==> calc.gives(
            Op::Plus,
            token[i],
            more[i],
            calc.zero,
            #[trigger] out[i],
        )
}

/// Whether values are multiplied, each by the one at its place.
pub open spec fn multiplies<T: Copy, F: Fn(Op, T, T, T) -> T>(
    values: Seq<T>,
    by: Seq<T>,
    calc: Calc<T, F>,
    out: Seq<T>,
) -> bool {
    &&& out.len() == values.len()
    &&& forall|i: int|
        0 <= i < values.len() ==> calc.gives(
            Op::Times,
            values[i],
            by[i],
            calc.zero,
            #[trigger] out[i],
        )
}

/// The weights that a token is made ready with.
pub ghost struct Asking<T> {
    pub norm: Seq<T>,
    pub eps: u32,
    pub table: Seq<T>,
    pub queries: int,
    pub keys: int,
    pub head_dim: usize,
    pub base: u32,
    /// The weights by which the heads of queries and keys are normed, where they are.
    pub head_norms: Option<(Seq<T>, Seq<T>)>,
}

/// Whether query, key and value are those of a token at a position. The norm of the token goes through
/// one table: the first outputs are the queries, the next ones the keys, the last ones the values.
/// Queries and keys are turned by the position of the token, and before that normed head by head where
/// the model does so; values are not.
#[verifier::opaque]
pub open spec fn is_made_ready<T: Copy, F: Fn(Op, T, T, T) -> T>(
    w: Asking<T>,
    token: Seq<T>,
    position: int,
    calc: Calc<T, F>,
    query: Seq<T>,
    key: Seq<T>,
    value: Seq<T>,
) -> bool {
    exists|normed: Seq<T>, all: Seq<T>, q: Seq<T>, k: Seq<T>|
        {
            &&& is_norm(token, w.norm, w.eps, calc, normed)
            &&& all.len() == w.queries + 2 * w.keys
            &&& #[trigger] is_linear(normed, w.table, calc, all)
            &&& match w.head_norms {
                Some((a, b)) => {
                    &&& is_heads_norm(
                        part(all, 0, w.queries),
                        a,
                        w.head_dim as int,
                        w.eps,
                        calc,
                        q,
                    )
                    &&& is_heads_norm(
                        part(all, w.queries, w.keys),
                        b,
                        w.head_dim as int,
                        w.eps,
                        calc,
                        k,
                    )
                },
                None => q == part(all, 0, w.queries) && k == part(all, w.queries, w.keys),
            }
            &&& #[trigger] all_turned(q, query, w.head_dim, position as usize, w.base, calc)
            &&& #[trigger] all_turned(k, key, w.head_dim, position as usize, w.base, calc)
            &&& value == part(all, w.queries + w.keys, w.keys)
        }
}

/// The weights of a feed-forward part.
pub ghost struct Feeding<T> {
    pub norm: Seq<T>,
    pub eps: u32,
    pub w1: Seq<T>,
    pub w2: Seq<T>,
    pub w3: Seq<T>,
    pub width: nat,
    pub size: nat,
    pub gate: Op,
    /// The factors of what is added, where there are any.
    pub scale: Option<Seq<T>>,
}

/// Whether a token becomes this one by the feed-forward part: its norm goes through two tables; the
/// outputs of the first one open the way for those of the other; what comes through goes through a
/// third table, and is added to the token.
#[verifier::opaque]
pub open spec fn is_fed_forward<T: Copy, F: Fn(Op, T, T, T) -> T>(
    w: Feeding<T>,
    token: Seq<T>,
    calc: Calc<T, F>,
    out: Seq<T>,
) -> bool {
    exists|normed: Seq<T>, gate: Seq<T>, up: Seq<T>, open: Seq<T>, back: Seq<T>, more: Seq<T>|
        {
            &&& is_norm(token, w.norm, w.eps, calc, normed)
            &&& gate.len() == w.size
            &&& #[trigger] is_linear(normed, w.w1, calc, gate)
            &&& up.len() == w.size
            &&& #[trigger] is_linear(normed, w.w3, calc, up)
            &&& open.len() == w.size
            &&& forall|i: int|
                0 <= i < w.size ==> calc.gives(w.gate, gate[i], up[i], calc.zero, #[trigger] open[i])
            &&& back.len() == w.width
            &&& #[trigger] is_linear(open, w.w2, calc, back)
            &&& match w.scale {
                Some(s) => multiplies(back, s, calc, more),
                None => more == back,
            }
            &&& #[trigger] adds_to(token, more, calc, out)
        }
}

/// Whether a token becomes this one by asking: the answers of all heads go through a table, and are
/// added to the token.
#[verifier::opaque]
pub open spec fn is_answered<T: Copy, F: Fn(Op, T, T, T) -> T>(
    token: Seq<T>,
    query: Seq<T>,
    keys: Seq<T>,
    values: Seq<T>,
    s: GqaAttentionShape,
    table: Seq<T>,
    width: nat,
    scale: Option<Seq<T>>,
    calc: Calc<T, F>,
    out: Seq<T>,
) -> bool {
    exists|answers: Seq<T>, back: Seq<T>, more: Seq<T>|
        {
            &&& are_answers(query, keys, values, s, calc, answers, s.head_count as int)
            &&& back.len() == width
            &&& #[trigger] is_linear(answers, table, calc, back)
            &&& match scale {
                Some(by) => multiplies(back, by, calc, more),
                None => more == back,
            }
            &&& #[trigger] adds_to(token, more, calc, out)
        }
}

// ---------------------------------------------------------------------
// Fast layers
// ---------------------------------------------------------------------

/// What the tokens of a layer are made ready with, and what comes of it.
pub ghost struct Ready<T> {
    pub queries: Seq<Seq<T>>,
    pub keys: Seq<Seq<T>>,
    pub values: Seq<Seq<T>>,
}

/// The weights that the tokens of a fast layer are made ready with.
pub open spec fn fast_asking<T>(w: FastArLayerValues<T>, s: FastArLayerShape) -> Asking<T> {
    Asking {
        norm: w.attention_norm@,
        eps: s.rms_norm_eps,
        table: w.wqkv@,
        queries: s.head_count * s.head_dim,
        keys: s.head_count_kv * s.head_dim,
        head_dim: s.head_dim,
        base: s.rope_base,
        head_norms: None,
    }
}

/// The weights of the feed-forward part of a fast layer.
pub open spec fn fast_feeding<T>(w: FastArLayerValues<T>, s: FastArLayerShape) -> Feeding<T> {
    Feeding {
        norm: w.ffn_norm@,
        eps: s.rms_norm_eps,
        w1: w.feed_forward_w1@,
        w2: w.feed_forward_w2@,
        w3: w.feed_forward_w3@,
        width: s.hidden_size as nat,
        size: s.feed_forward_size as nat,
        gate: Op::GateOver,
        scale: None,
    }
}

/// Whether this is the way of the tokens through a fast layer: each is made ready at its own place,
/// asks itself and those before it, and is fed forward.
pub open spec fn is_fast_layer_way<T: Copy, F: Fn(Op, T, T, T) -> T>(
    w: FastArLayerValues<T>,
    s: FastArLayerShape,
    tokens: Seq<Seq<T>>,
    calc: Calc<T, F>,
    ready: Ready<T>,
    middle: Seq<Seq<T>>,
    out: Seq<Seq<T>>,
) -> bool {
    let n = tokens.len();
    &&& out.len() == n
    &&& middle.len() == n
    &&& ready.queries.len() == n
    &&& ready.keys.len() == n
    &&& ready.values.len() == n
    &&& forall|i: int|
        0 <= i < n ==> {
            &&& #[trigger] is_made_ready(
                fast_asking(w, s),
                tokens[i],
                i,
                calc,
                ready.queries[i],
                ready.keys[i],
                ready.values[i],
            )
        }
    &&& forall|i: int|
        0 <= i < n ==> #[trigger] is_answered(
            tokens[i],
            ready.queries[i],
            flat(ready.keys.take(i + 1)),
            flat(ready.values.take(i + 1)),
            (GqaAttentionShape {
                head_count: s.head_count,
                head_count_kv: s.head_count_kv,
                head_dim: s.head_dim,
                token_count: (i + 1) as usize,
                attn_scale: AttentionScale::OfHead(s.head_dim),
            }),
            w.output@,
            s.hidden_size as nat,
            None,
            calc,
            middle[i],
        )
    &&& forall|i: int|
        0 <= i < n ==> #[trigger] is_fed_forward(fast_feeding(w, s), middle[i], calc, out[i])
}

proof fn lemma_cut<T>(list: Seq<T>, a: int, b: int)
    requires
        0 <= a <= b <= list.len(),
    ensures
        list.subrange(a, b) == part(list, a, b - a),
{
    assert(list.subrange(a, b) =~= part(list, a, b - a));
}

spec fn fast_middle<T: Copy, F: Fn(Op, T, T, T) -> T>(
    w: FastArLayerValues<T>,
    s: FastArLayerShape,
    token: Seq<T>,
    query: Seq<T>,
    keys: Seq<T>,
    values: Seq<T>,
    visible: int,
    calc: Calc<T, F>,
    out: Seq<T>,
) -> Seq<T> {
    choose|middle: Seq<T>|
        {
            &&& #[trigger] is_answered(
                token,
                query,
                keys,
                values,
                crate::fast_ar::fast_shape(s, visible as usize),
                w.output@,
                s.hidden_size as nat,
                None,
                calc,
                middle,
            )
            &&& is_fed_forward(fast_feeding(w, s), middle, calc, out)
        }
}

proof fn lemma_fast_fed<T: Copy, F: Fn(Op, T, T, T) -> T>(
    w: FastArLayerValues<T>,
    s: FastArLayerShape,
    token: Seq<T>,
    calc: Calc<T, F>,
    out: Seq<T>,
)
    requires
        w.is_fed(s, token, calc, out),
    ensures
        is_fed_forward(fast_feeding(w, s), token, calc, out),
{
    reveal(is_fed_forward);
    let (normalized, gate, up, active, back) = choose|
        normalized: Seq<T>,
        gate: Seq<T>,
        up: Seq<T>,
        active: Seq<T>,
        back: Seq<T>,
    |
        {
            &&& is_norm(token, w.ffn_norm@, s.rms_norm_eps, calc, normalized)
            &&& gate.len() == s.feed_forward_size
            &&& #[trigger] is_linear(normalized, w.feed_forward_w1@, calc, gate)
            &&& up.len() == s.feed_forward_size
            &&& #[trigger] is_linear(normalized, w.feed_forward_w3@, calc, up)
            &&& is_zipped(gate, up, Op::GateOver, calc, active)
            &&& back.len() == s.hidden_size
            &&& #[trigger] is_linear(active, w.feed_forward_w2@, calc, back)
            &&& is_zipped(token, back, Op::Plus, calc, out)
        };
    let f = fast_feeding(w, s);
    assert(is_linear(normalized, f.w1, calc, gate));
    assert(is_linear(normalized, f.w3, calc, up));
    assert(is_linear(active, f.w2, calc, back));
    assert(adds_to(token, back, calc, out));
}

proof fn lemma_fast_finished<T: Copy, F: Fn(Op, T, T, T) -> T>(
    w: FastArLayerValues<T>,
    s: FastArLayerShape,
    token: Seq<T>,
    query: Seq<T>,
    keys: Seq<T>,
    values: Seq<T>,
    visible: int,
    calc: Calc<T, F>,
    out: Seq<T>,
)
    requires
        w.is_finished(s, token, query, keys, values, visible as usize, calc, out),
    ensures
        ({
            let middle = fast_middle(w, s, token, query, keys, values, visible, calc, out);
            &&& is_answered(
                token,
                query,
                keys,
                values,
                crate::fast_ar::fast_shape(s, visible as usize),
                w.output@,
                s.hidden_size as nat,
                None,
                calc,
                middle,
            )
            &&& is_fed_forward(fast_feeding(w, s), middle, calc, out)
        }),
{
    let (attention, projected, middle) = choose|
        attention: Seq<T>,
        projected: Seq<T>,
        middle: Seq<T>,
    |
        {
            &&& are_answers(
                query,
                keys,
                values,
                crate::fast_ar::fast_shape(s, visible as usize),
                calc,
                attention,
                s.head_count as int,
            )
            &&& projected.len() == s.hidden_size
            &&& #[trigger] is_linear(attention, w.output@, calc, projected)
            &&& is_zipped(token, projected, Op::Plus, calc, middle)
            &&& #[trigger] w.is_fed(s, middle, calc, out)
        };
    lemma_fast_fed(w, s, middle, calc, out);
    assert(is_answered(
        token,
        query,
        keys,
        values,
        crate::fast_ar::fast_shape(s, visible as usize),
        w.output@,
        s.hidden_size as nat,
        None,
        calc,
        middle,
    )) by {
        reveal(is_answered);
        assert(adds_to(token, projected, calc, middle));
    }
}

proof fn lemma_fast_prepared<T: Copy, F: Fn(Op, T, T, T) -> T>(
    w: FastArLayerValues<T>,
    s: FastArLayerShape,
    token: Seq<T>,
    position: int,
    calc: Calc<T, F>,
    p: PreparedToken<T>,
)
    requires
        w.is_prepared(s, token, position as usize, calc, p),
        s.queries() is Ok,
        s.keys() is Ok,
    ensures
        is_made_ready(fast_asking(w, s), token, position, calc, p.query@, p.key@, p.value@),
{
    reveal(is_made_ready);
    let q = s.queries()->Ok_0 as int;
    let kv = s.keys()->Ok_0 as int;
    let (normalized, all) = choose|normalized: Seq<T>, all: Seq<T>|
        {
            &&& is_norm(token, w.attention_norm@, s.rms_norm_eps, calc, normalized)
            &&& all.len() == q + 2 * kv
            &&& #[trigger] is_linear(normalized, w.wqkv@, calc, all)
            &&& all_turned(
                all.subrange(0, q),
                p.query@,
                s.head_dim,
                position as usize,
                s.rope_base,
                calc,
            )
            &&& all_turned(
                all.subrange(q, q + kv),
                p.key@,
                s.head_dim,
                position as usize,
                s.rope_base,
                calc,
            )
            &&& p.value@ == all.subrange(q + kv, q + 2 * kv)
        };
    lemma_cut(all, 0, q);
    lemma_cut(all, q, q + kv);
    lemma_cut(all, q + kv, q + 2 * kv);
    let a = fast_asking(w, s);
    assert(a.queries == q && a.keys == kv);
    assert(is_linear(normalized, a.table, calc, all));
    assert(all_turned(part(all, 0, q), p.query@, a.head_dim, position as usize, a.base, calc));
    assert(all_turned(part(all, q, kv), p.key@, a.head_dim, position as usize, a.base, calc));
}

/// In a fast layer each token is made ready at its own place, asks itself and the tokens before it, and
/// none behind it, and is fed forward; what it asked for and what it was fed are added to it.
pub proof fn fast_tokens_ask_those_before<T: Copy, F: Fn(Op, T, T, T) -> T>(
    w: FastArLayerValues<T>,
    s: FastArLayerShape,
    base_text: Seq<char>,
    tokens: Seq<Seq<T>>,
    calc: Calc<T, F>,
    out: Seq<Seq<T>>,
)
    requires
        w.is_layer(s, tokens, calc, out),
        s.error(base_text) is None,
        tokens.len() < usize::MAX,
    ensures
        exists|ready: Ready<T>, middle: Seq<Seq<T>>|
            #[trigger] is_fast_layer_way(w, s, tokens, calc, ready, middle, out),
{
    let p = choose|p: Seq<PreparedToken<T>>|
        #[trigger] w.are_prepared(s, tokens, calc, p) && w.are_finished(s, tokens, calc, p, out);
    let ready = Ready {
        queries: p.map_values(|t: PreparedToken<T>| t.query@),
        keys: keys_of(p),
        values: values_of(p),
    };
    let middle = Seq::new(
        tokens.len(),
        |i: int|
            fast_middle(
                w,
                s,
                tokens[i],
                p[i].query@,
                flat(keys_of(p).take(i + 1)),
                flat(values_of(p).take(i + 1)),
                i + 1,
                calc,
                out[i],
            ),
    );
    assert forall|i: int| 0 <= i < tokens.len() implies #[trigger] is_made_ready(
        fast_asking(w, s),
        tokens[i],
        i,
        calc,
        ready.queries[i],
        ready.keys[i],
        ready.values[i],
    ) by {
        lemma_fast_prepared(w, s, tokens[i], i, calc, p[i]);
    }
    assert forall|i: int| 0 <= i < tokens.len() implies #[trigger] is_answered(
        tokens[i],
        ready.queries[i],
        flat(ready.keys.take(i + 1)),
        flat(ready.values.take(i + 1)),
        (GqaAttentionShape {
            head_count: s.head_count,
            head_count_kv: s.head_count_kv,
            head_dim: s.head_dim,
            token_count: (i + 1) as usize,
            attn_scale: AttentionScale::OfHead(s.head_dim),
        }),
        w.output@,
        s.hidden_size as nat,
        None,
        calc,
        middle[i],
    ) && is_fed_forward(fast_feeding(w, s), middle[i], calc, out[i]) by {
        let _ = out[i];
        lemma_fast_finished(
            w,
            s,
            tokens[i],
            p[i].query@,
            flat(keys_of(p).take(i + 1)),
            flat(values_of(p).take(i + 1)),
            i + 1,
            calc,
            out[i],
        );
    }
    assert forall|i: int| 0 <= i < tokens.len() implies #[trigger] is_fed_forward(
        fast_feeding(w, s),
        middle[i],
        calc,
        out[i],
    ) by {
        assert(is_answered(
            tokens[i],
            ready.queries[i],
            flat(ready.keys.take(i + 1)),
            flat(ready.values.take(i + 1)),
            (GqaAttentionShape {
                head_count: s.head_count,
                head_count_kv: s.head_count_kv,
                head_dim: s.head_dim,
                token_count: (i + 1) as usize,
                attn_scale: AttentionScale::OfHead(s.head_dim),
            }),
            w.output@,
            s.hidden_size as nat,
            None,
            calc,
            middle[i],
        ));
    }
    assert(is_fast_layer_way(w, s, tokens, calc, ready, middle, out));
}

/// What a fast layer makes of the first tokens does not depend on those behind them.
pub proof fn fast_layers_do_not_look_ahead<T: Copy, F: Fn(Op, T, T, T) -> T>(
    w: FastArLayerValues<T>,
    s: FastArLayerShape,
    tokens: Seq<Seq<T>>,
    calc: Calc<T, F>,
    out: Seq<Seq<T>>,
    n: int,
)
    requires
        w.is_layer(s, tokens, calc, out),
        0 <= n <= tokens.len(),
    ensures
        w.is_layer(s, tokens.take(n), calc, out.take(n)),
{
    let p = choose|p: Seq<PreparedToken<T>>|
        #[trigger] w.are_prepared(s, tokens, calc, p) && w.are_finished(s, tokens, calc, p, out);
    let first = p.take(n);
    assert(w.are_prepared(s, tokens.take(n), calc, first));
    assert forall|i: int| 0 <= i < n implies w.is_finished(
        s,
        tokens.take(n)[i],
        first[i].query@,
        flat(keys_of(first).take(i + 1)),
        flat(values_of(first).take(i + 1)),
        (i + 1) as usize,
        calc,
        #[trigger] out.take(n)[i],
    ) by {
        assert(out.take(n)[i] == out[i]);
        assert(keys_of(first).take(i + 1) =~= keys_of(p).take(i + 1));
        assert(values_of(first).take(i + 1) =~= values_of(p).take(i + 1));
    }
    assert(w.are_finished(s, tokens.take(n), calc, first, out.take(n)));
}

// ---------------------------------------------------------------------
// Layers of the codec
// ---------------------------------------------------------------------

/// The weights that the frames of a codec layer are made ready with: sixteen heads of 64 values for
/// queries, keys and values, and the base of the angles is ten thousand.
pub open spec fn codec_asking<T>(w: CodecTransformerLayerValues<T>) -> Asking<T> {
    Asking {
        norm: w.attention_norm@,
        eps: 0x3727_c5ac,
        table: w.attention_wqkv@,
        queries: 1024,
        keys: 1024,
        head_dim: 64,
        base: 0x461c_4000,
        head_norms: None,
    }
}

/// The weights of the feed-forward part of a codec layer.
pub open spec fn codec_feeding<T>(w: CodecTransformerLayerValues<T>) -> Feeding<T> {
    Feeding {
        norm: w.ffn_norm@,
        eps: 0x3727_c5ac,
        w1: w.feed_forward_w1@,
        w2: w.feed_forward_w2@,
        w3: w.feed_forward_w3@,
        width: 1024,
        size: 3072,
        gate: Op::GateOver,
        scale: Some(w.ffn_layer_scale@),
    }
}

/// The first frame that a frame sees: as many frames before it as a window holds with it, and none
/// before the first one.
pub open spec fn window_start(i: int, window: int) -> int {
    if i >= window {
        i - (window - 1)
    } else {
        0
    }
}

/// Whether a frame becomes another in a codec layer: it asks the frames from the start of its window up
/// to itself, by their keys and values, and is fed forward.
#[verifier::opaque]
pub open spec fn frame_becomes<T: Copy, F: Fn(Op, T, T, T) -> T>(
    w: CodecTransformerLayerValues<T>,
    frame: Seq<T>,
    i: int,
    window: int,
    calc: Calc<T, F>,
    ready: Ready<T>,
    middle: Seq<T>,
    out: Seq<T>,
) -> bool {
    let first = window_start(i, window);
    &&& is_answered(
        frame,
        ready.queries[i],
        flat(ready.keys.subrange(first, i + 1)),
        flat(ready.values.subrange(first, i + 1)),
        (GqaAttentionShape {
            head_count: 16,
            head_count_kv: 16,
            head_dim: 64,
            token_count: (i + 1 - first) as usize,
            attn_scale: AttentionScale::OfHead(64),
        }),
        w.attention_output@,
        1024,
        Some(w.attention_layer_scale@),
        calc,
        middle,
    )
    &&& is_fed_forward(codec_feeding(w), middle, calc, out)
}

/// Whether this is the way of frames through a codec layer.
pub open spec fn is_codec_layer_way<T: Copy, F: Fn(Op, T, T, T) -> T>(
    w: CodecTransformerLayerValues<T>,
    frames: Seq<Seq<T>>,
    window: int,
    calc: Calc<T, F>,
    ready: Ready<T>,
    middle: Seq<Seq<T>>,
    out: Seq<Seq<T>>,
) -> bool {
    let n = frames.len();
    &&& out.len() == n
    &&& middle.len() == n
    &&& ready.queries.len() == n
    &&& ready.keys.len() == n
    &&& ready.values.len() == n
    &&& forall|i: int|
        0 <= i < n ==> #[trigger] is_made_ready(
            codec_asking(w),
            frames[i],
            i,
            calc,
            ready.queries[i],
            ready.keys[i],
            ready.values[i],
        )
    &&& forall|i: int|
        0 <= i < n ==> #[trigger] frame_becomes(
            w,
            frames[i],
            i,
            window,
            calc,
            ready,
            middle[i],
            out[i],
        )
}

proof fn lemma_codec_fed<T: Copy, F: Fn(Op, T, T, T) -> T>(
    w: CodecTransformerLayerValues<T>,
    token: Seq<T>,
    calc: Calc<T, F>,
    out: Seq<T>,
)
    requires
        w.is_fed(token, calc, out),
    ensures
        is_fed_forward(codec_feeding(w), token, calc, out),
{
    reveal(is_fed_forward);
    let (normalized, gate, up, active, back, scaled) = choose|
        normalized: Seq<T>,
        gate: Seq<T>,
        up: Seq<T>,
        active: Seq<T>,
        back: Seq<T>,
        scaled: Seq<T>,
    |
        {
            &&& is_norm(token, w.ffn_norm@, 0x3727_c5ac, calc, normalized)
            &&& gate.len() == 3072
            &&& #[trigger] is_linear(normalized, w.feed_forward_w1@, calc, gate)
            &&& up.len() == 3072
            &&& #[trigger] is_linear(normalized, w.feed_forward_w3@, calc, up)
            &&& is_zipped(gate, up, Op::GateOver, calc, active)
            &&& back.len() == 1024
            &&& #[trigger] is_linear(active, w.feed_forward_w2@, calc, back)
            &&& #[trigger] is_zipped(back, w.ffn_layer_scale@, Op::Times, calc, scaled)
            &&& is_zipped(token, scaled, Op::Plus, calc, out)
        };
    let f = codec_feeding(w);
    assert(is_linear(normalized, f.w1, calc, gate));
    assert(is_linear(normalized, f.w3, calc, up));
    assert(is_linear(active, f.w2, calc, back));
    assert(multiplies(back, w.ffn_layer_scale@, calc, scaled));
    assert(adds_to(token, scaled, calc, out));
}

proof fn lemma_codec_asked<T: Copy, F: Fn(Op, T, T, T) -> T>(
    w: CodecTransformerLayerValues<T>,
    token: Seq<T>,
    query: Seq<T>,
    keys: Seq<T>,
    values: Seq<T>,
    visible: usize,
    calc: Calc<T, F>,
    out: Seq<T>,
)
    requires
        w.is_asked(token, query, keys, values, visible, calc, out),
    ensures
        is_answered(
            token,
            query,
            keys,
            values,
            (GqaAttentionShape {
                head_count: 16,
                head_count_kv: 16,
                head_dim: 64,
                token_count: visible,
                attn_scale: AttentionScale::OfHead(64),
            }),
            w.attention_output@,
            1024,
            Some(w.attention_layer_scale@),
            calc,
            out,
        ),
{
    reveal(is_answered);
    let (attention, projected, scaled) = choose|
        attention: Seq<T>,
        projected: Seq<T>,
        scaled: Seq<T>,
    |
        {
            &&& are_answers(
                query,
                keys,
                values,
                crate::codec_layer::codec_shape(visible),
                calc,
                attention,
                16,
            )
            &&& projected.len() == 1024
            &&& #[trigger] is_linear(attention, w.attention_output@, calc, projected)
            &&& #[trigger] is_zipped(
                projected,
                w.attention_layer_scale@,
                Op::Times,
                calc,
                scaled,
            )
            &&& is_zipped(token, scaled, Op::Plus, calc, out)
        };
    assert(multiplies(projected, w.attention_layer_scale@, calc, scaled));
    assert(adds_to(token, scaled, calc, out));
}

proof fn lemma_codec_prepared<T: Copy, F: Fn(Op, T, T, T) -> T>(
    w: CodecTransformerLayerValues<T>,
    token: Seq<T>,
    position: int,
    calc: Calc<T, F>,
    p: PreparedToken<T>,
)
    requires
        w.is_prepared(token, position as usize, calc, p),
    ensures
        is_made_ready(codec_asking(w), token, position, calc, p.query@, p.key@, p.value@),
{
    reveal(is_made_ready);
    let (normalized, all) = choose|normalized: Seq<T>, all: Seq<T>|
        {
            &&& is_norm(token, w.attention_norm@, 0x3727_c5ac, calc, normalized)
            &&& all.len() == 3072
            &&& #[trigger] is_linear(normalized, w.attention_wqkv@, calc, all)
            &&& all_turned(
                all.subrange(0, 1024),
                p.query@,
                64,
                position as usize,
                0x461c_4000,
                calc,
            )
            &&& all_turned(
                all.subrange(1024, 2048),
                p.key@,
                64,
                position as usize,
                0x461c_4000,
                calc,
            )
            &&& p.value@ == all.subrange(2048, 3072)
        };
    lemma_cut(all, 0, 1024);
    lemma_cut(all, 1024, 2048);
    lemma_cut(all, 2048, 3072);
    let a = codec_asking(w);
    assert(is_linear(normalized, a.table, calc, all));
    assert(all_turned(part(all, 0, 1024), p.query@, a.head_dim, position as usize, a.base, calc));
    assert(all_turned(part(all, 1024, 1024), p.key@, a.head_dim, position as usize, a.base, calc));
}

/// In a codec layer each frame is made ready at its own place, asks the frames of the window that ends
/// with it, and is fed forward; what is added to it is scaled place by place.
pub proof fn codec_frames_ask_their_window<T: Copy, F: Fn(Op, T, T, T) -> T>(
    w: CodecTransformerLayerValues<T>,
    frames: Seq<Seq<T>>,
    window: usize,
    calc: Calc<T, F>,
    out: Seq<Seq<T>>,
)
    requires
        w.does(frames, window, calc, Ok(out)),
    ensures
        frames.len() > 0,
        window > 0,
        exists|ready: Ready<T>, middle: Seq<Seq<T>>|
            #[trigger] is_codec_layer_way(w, frames, window as int, calc, ready, middle, out),
{
    assert(w.is_layer(frames, window as int, calc, out));
    let (p, middle) = choose|p: Seq<PreparedToken<T>>, middle: Seq<Seq<T>>|
        {
            &&& #[trigger] w.are_prepared(frames, calc, p)
            &&& #[trigger] w.are_asked(frames, window as int, p, calc, middle)
            &&& forall|i: int| 0 <= i < out.len() ==> w.is_fed(middle[i], calc, #[trigger] out[i])
        };
    let ready = Ready {
        queries: p.map_values(|t: PreparedToken<T>| t.query@),
        keys: keys_of(p),
        values: values_of(p),
    };
    assert forall|i: int| 0 <= i < frames.len() implies #[trigger] is_made_ready(
        codec_asking(w),
        frames[i],
        i,
        calc,
        ready.queries[i],
        ready.keys[i],
        ready.values[i],
    ) by {
        lemma_codec_prepared(w, frames[i], i, calc, p[i]);
    }
    assert forall|i: int| 0 <= i < frames.len() implies #[trigger] frame_becomes(
        w,
        frames[i],
        i,
        window as int,
        calc,
        ready,
        middle[i],
        out[i],
    ) by {
        let first = window_start(i, window as int);
        assert(first == crate::codec_layer::first_seen(i, window as int));
        lemma_codec_asked(
            w,
            frames[i],
            p[i].query@,
            flat(keys_of(p).subrange(first, i + 1)),
            flat(values_of(p).subrange(first, i + 1)),
            (i + 1 - first) as usize,
            calc,
            middle[i],
        );
        lemma_codec_fed(w, middle[i], calc, out[i]);
        reveal(frame_becomes);
    }
    assert(is_codec_layer_way(w, frames, window as int, calc, ready, middle, out));
}

// ---------------------------------------------------------------------
// Slow layers
// ---------------------------------------------------------------------

/// The weights that the tokens of a slow layer are made ready with.
pub open spec fn slow_asking<T>(w: LayerView<T>) -> Asking<T> {
    Asking {
        norm: w.attention_norm_weight,
        eps: w.shape.rms_norm_eps,
        table: w.wqkv_weight,
        queries: w.shape.head_count * w.shape.head_dim,
        keys: w.shape.head_count_kv * w.shape.head_dim,
        head_dim: w.shape.head_dim,
        base: w.shape.rope_base,
        head_norms: Some((w.q_norm_weight, w.k_norm_weight)),
    }
}

/// The weights of the feed-forward part of a slow layer.
pub open spec fn slow_feeding<T>(w: LayerView<T>) -> Feeding<T> {
    Feeding {
        norm: w.ffn_norm_weight,
        eps: w.shape.rms_norm_eps,
        w1: w.feed_forward_w1_weight,
        w2: w.feed_forward_w2_weight,
        w3: w.feed_forward_w3_weight,
        width: w.shape.hidden_size as nat,
        size: w.shape.feed_forward_size as nat,
        gate: Op::Gate,
        scale: None,
    }
}

/// Query, key and value of a token in a slow layer: heads of queries and keys are normed by weights of
/// their own and turned by the position of the token.
pub proof fn slow_tokens_are_made_ready<T: Copy, F: Fn(Op, T, T, T) -> T>(
    w: LayerView<T>,
    base_text: Seq<char>,
    token: Seq<T>,
    position: usize,
    calc: Calc<T, F>,
    normalized: Seq<T>,
    query: Seq<T>,
    key: Seq<T>,
    value: Seq<T>,
)
    requires
        w.is_prepared(token, position, calc, normalized, query, key, value),
        w.shape.error(base_text) is None,
    ensures
        is_made_ready(slow_asking(w), token, position as int, calc, query, key, value),
        is_norm(token, w.attention_norm_weight, w.shape.rms_norm_eps, calc, normalized),
{
    reveal(is_made_ready);
    let s = w.shape;
    let q = s.queries()->Ok_0 as int;
    let kv = s.keys()->Ok_0 as int;
    let (all, q_flat, k_flat) = choose|all: Seq<T>, q_flat: Seq<T>, k_flat: Seq<T>|
        {
            &&& all.len() == q + 2 * kv
            &&& #[trigger] is_linear(normalized, w.wqkv_weight, calc, all)
            &&& is_heads_norm(
                all.subrange(0, q),
                w.q_norm_weight,
                s.head_dim as int,
                s.rms_norm_eps,
                calc,
                q_flat,
            )
            &&& is_heads_norm(
                all.subrange(q, q + kv),
                w.k_norm_weight,
                s.head_dim as int,
                s.rms_norm_eps,
                calc,
                k_flat,
            )
            &&& #[trigger] all_turned(q_flat, query, s.head_dim, position, s.rope_base, calc)
            &&& #[trigger] all_turned(k_flat, key, s.head_dim, position, s.rope_base, calc)
            &&& value == all.subrange(q + kv, q + 2 * kv)
        };
    lemma_cut(all, 0, q);
    lemma_cut(all, q, q + kv);
    lemma_cut(all, q + kv, q + 2 * kv);
    let a = slow_asking(w);
    assert(a.queries == q && a.keys == kv);
    assert(is_linear(normalized, a.table, calc, all));
    assert(all_turned(q_flat, query, a.head_dim, position as int as usize, a.base, calc));
    assert(all_turned(k_flat, key, a.head_dim, position as int as usize, a.base, calc));
}

/// The feed-forward part of a slow layer.
pub proof fn slow_tokens_are_fed<T: Copy, F: Fn(Op, T, T, T) -> T>(
    w: LayerView<T>,
    token: Seq<T>,
    calc: Calc<T, F>,
    o: SlowArLayerFeedForwardOutput<T>,
)
    requires
        w.is_fed(token, calc, o),
    ensures
        is_fed_forward(slow_feeding(w), token, calc, o.hidden@),
{
    reveal(is_fed_forward);
    let f = slow_feeding(w);
    assert(is_linear(o.normalized@, f.w1, calc, o.gate@));
    assert(is_linear(o.normalized@, f.w3, calc, o.up@));
    assert(is_linear(o.activated@, f.w2, calc, o.projected@));
    assert(adds_to(token, o.projected@, calc, o.hidden@));
}

/// A token of a slow layer asks, by its query, the keys of the first tokens that the cache holds for
/// the layer, and is answered from their values.
pub proof fn slow_tokens_ask_the_cache<T: Copy, F: Fn(Op, T, T, T) -> T>(
    w: LayerView<T>,
    token: Seq<T>,
    query: Seq<T>,
    c: crate::attention::CacheView<T>,
    layer: usize,
    visible: usize,
    calc: Calc<T, F>,
    attention: Seq<T>,
    projected: Seq<T>,
    out: Seq<T>,
)
    requires
        w.is_finished(token, query, c, layer, visible, calc, attention, projected, out),
        c.full(),
        layer < c.block_count,
        visible <= c.max_seq_len,
    ensures
        ({
            let width = c.head_dim * c.head_count_kv;
            let start = (layer * c.max_seq_len) * width;
            is_answered(
                token,
                query,
                part(c.keys, start, visible * width),
                part(c.values, start, visible * width),
                (GqaAttentionShape {
                    head_count: w.shape.head_count,
                    head_count_kv: c.head_count_kv,
                    head_dim: c.head_dim,
                    token_count: visible,
                    attn_scale: AttentionScale::OfHead(w.shape.head_dim),
                }),
                w.output_weight,
                w.shape.hidden_size as nat,
                None,
                calc,
                out,
            )
        }),
{
    let width = c.head_dim * c.head_count_kv;
    let rows = layer * c.max_seq_len;
    let start = rows * width;
    assert((rows + visible) * width == start + visible * width) by (nonlinear_arith)
        requires
            start == rows * width,
    ;
    crate::arith::lemma_rows_monotone(layer as int + 1, c.block_count as int, c.max_seq_len as int);
    crate::arith::lemma_next_row(layer as int, c.max_seq_len as int);
    crate::arith::lemma_rows_monotone(0, layer as int, c.max_seq_len as int);
    crate::arith::lemma_rows_monotone(rows + visible, c.block_count * c.max_seq_len, width);
    crate::arith::lemma_rows_monotone(rows, rows + visible, width);
    lemma_cut(c.keys, start, start + visible * width);
    lemma_cut(c.values, start, start + visible * width);
    assert(crate::attention::first_rows(c, c.keys, layer, visible as int) == part(
        c.keys,
        start,
        visible * width,
    ));
    assert(crate::attention::first_rows(c, c.values, layer, visible as int) == part(
        c.values,
        start,
        visible * width,
    ));
    reveal(is_answered);
    assert(adds_to(token, projected, calc, out));
}

} // verus!
