//! Where every operation gives one result only, so does everything made of them.
use crate::arith::{lemma_next_row, lemma_place, lemma_rows_monotone};
use crate::attention::{
    all_turned, are_answers, are_scores, are_shares, cache_shape, first_rows, folded, is_answer,
    is_mixed, is_score, is_turn, is_turned, value_terms, AttentionScale, CacheView, GqaAttentionShape,
};
use crate::backend::{is_heads_norm, is_norm};
use crate::numeric::{gathered, is_linear, pairs, row, sums_are_unique, Calc, Op};
use crate::slow_layer::{
    is_zipped, LayerView, SlowArLayerFeedForwardOutput, SlowArLayerForwardOutput,
};
use crate::slow_sequence::{first_of, no_first_where_none, output_kv, stored};
use vstd::prelude::*;

verus! {

/// A product with a table has one result.
pub proof fn linear_is_settled<T: Copy, F: Fn(Op, T, T, T) -> T>(
    input: Seq<T>,
    table: Seq<T>,
    calc: Calc<T, F>,
    a: Seq<T>,
    b: Seq<T>,
)
    requires
        calc.settled(),
        a.len() == b.len(),
        is_linear(input, table, calc, a),
        is_linear(input, table, calc, b),
    ensures
        a == b,
{
    assert forall|o: int| 0 <= o < a.len() implies a[o] == b[o] by {
        sums_are_unique(
            pairs(input, row(table, o, input.len() as int)),
            calc.zero,
            calc,
            a[o],
            b[o],
        );
    }
    assert(a =~= b);
}

/// A norm has one result.
pub proof fn norm_is_settled<T: Copy, F: Fn(Op, T, T, T) -> T>(
    input: Seq<T>,
    weight: Seq<T>,
    eps: u32,
    calc: Calc<T, F>,
    a: Seq<T>,
    b: Seq<T>,
)
    requires
        calc.settled(),
        is_norm(input, weight, eps, calc, a),
        is_norm(input, weight, eps, calc, b),
    ensures
        a == b,
{
    let o = Op::NormScale(input.len() as usize, eps);
    let (s, x) = choose|total: T, scale: T|
        {
            &&& #[trigger] gathered(pairs(input, input), calc.zero, calc, total)
            &&& #[trigger] calc.gives(o, total, calc.zero, calc.zero, scale)
            &&& forall|i: int|
                0 <= i < input.len() ==> calc.gives(
                    Op::Weigh,
                    input[i],
                    scale,
                    weight[i],
                    #[trigger] a[i],
                )
        };
    let (t, y) = choose|total: T, scale: T|
        {
            &&& #[trigger] gathered(pairs(input, input), calc.zero, calc, total)
            &&& #[trigger] calc.gives(o, total, calc.zero, calc.zero, scale)
            &&& forall|i: int|
                0 <= i < input.len() ==> calc.gives(
                    Op::Weigh,
                    input[i],
                    scale,
                    weight[i],
                    #[trigger] b[i],
                )
        };
    sums_are_unique(pairs(input, input), calc.zero, calc, s, t);
    assert(calc.gives(o, s, calc.zero, calc.zero, x));
    assert(calc.gives(o, s, calc.zero, calc.zero, y));
    assert forall|i: int| 0 <= i < a.len() implies a[i] == b[i] by {
        assert(calc.gives(Op::Weigh, input[i], x, weight[i], a[i]));
        assert(calc.gives(Op::Weigh, input[i], x, weight[i], b[i]));
    }
    assert(a =~= b);
}

/// Tables whose rows are the same are the same.
proof fn lemma_same_rows<T>(a: Seq<T>, b: Seq<T>, count: int, width: int)
    requires
        0 <= count,
        0 < width,
        a.len() == count * width,
        b.len() == a.len(),
        forall|h: int| 0 <= h < count ==> #[trigger] row(a, h, width) == row(b, h, width),
    ensures
        a == b,
{
    assert forall|k: int| 0 <= k < a.len() implies a[k] == b[k] by {
        lemma_place(k, count, width);
        let h = k / width;
        lemma_next_row(h, width);
        lemma_rows_monotone(h + 1, count, width);
        lemma_rows_monotone(0, h, width);
        assert(row(a, h, width)[k % width] == a[k]);
        assert(row(b, h, width)[k % width] == b[k]);
    }
    assert(a =~= b);
}

/// The norm of every head has one result.
pub proof fn heads_norm_is_settled<T: Copy, F: Fn(Op, T, T, T) -> T>(
    input: Seq<T>,
    weight: Seq<T>,
    head_dim: int,
    eps: u32,
    calc: Calc<T, F>,
    a: Seq<T>,
    b: Seq<T>,
)
    requires
        calc.settled(),
        0 < head_dim,
        input.len() as int % head_dim == 0,
        is_heads_norm(input, weight, head_dim, eps, calc, a),
        is_heads_norm(input, weight, head_dim, eps, calc, b),
    ensures
        a == b,
{
    let count = input.len() as int / head_dim;
    vstd::arithmetic::div_mod::lemma_fundamental_div_mod(input.len() as int, head_dim);
    vstd::arithmetic::mul::lemma_mul_is_commutative(count, head_dim);
    vstd::arithmetic::div_mod::lemma_div_pos_is_pos(input.len() as int, head_dim);
    assert forall|h: int| 0 <= h < count implies #[trigger] row(a, h, head_dim) == row(
        b,
        h,
        head_dim,
    ) by {
        norm_is_settled(
            row(input, h, head_dim),
            weight,
            eps,
            calc,
            row(a, h, head_dim),
            row(b, h, head_dim),
        );
    }
    lemma_same_rows(a, b, count, head_dim);
}

proof fn lemma_turn_is_settled<T: Copy, F: Fn(Op, T, T, T) -> T>(
    x: T,
    y: T,
    cos: T,
    sin: T,
    calc: Calc<T, F>,
    a: (T, T),
    b: (T, T),
)
    requires
        calc.settled(),
        is_turn(x, y, cos, sin, calc, a.0, a.1),
        is_turn(x, y, cos, sin, calc, b.0, b.1),
    ensures
        a == b,
{
    let z = calc.zero;
    let (p, q, u, v) = choose|xc: T, ys: T, xs: T, yc: T|
        {
            &&& #[trigger] calc.gives(Op::Times, x, cos, z, xc)
            &&& #[trigger] calc.gives(Op::Times, y, sin, z, ys)
            &&& calc.gives(Op::Minus, xc, ys, z, a.0)
            &&& #[trigger] calc.gives(Op::Times, x, sin, z, xs)
            &&& #[trigger] calc.gives(Op::Times, y, cos, z, yc)
            &&& calc.gives(Op::Plus, xs, yc, z, a.1)
        };
    assert(calc.gives(Op::Times, x, cos, z, p) && calc.gives(Op::Times, y, sin, z, q));
    assert(calc.gives(Op::Times, x, sin, z, u) && calc.gives(Op::Times, y, cos, z, v));
    assert(calc.gives(Op::Minus, p, q, z, a.0) && calc.gives(Op::Plus, u, v, z, a.1));
    let (p2, q2, u2, v2) = choose|xc: T, ys: T, xs: T, yc: T|
        {
            &&& #[trigger] calc.gives(Op::Times, x, cos, z, xc)
            &&& #[trigger] calc.gives(Op::Times, y, sin, z, ys)
            &&& calc.gives(Op::Minus, xc, ys, z, b.0)
            &&& #[trigger] calc.gives(Op::Times, x, sin, z, xs)
            &&& #[trigger] calc.gives(Op::Times, y, cos, z, yc)
            &&& calc.gives(Op::Plus, xs, yc, z, b.1)
        };
    assert(calc.gives(Op::Times, x, cos, z, p2) && calc.gives(Op::Times, y, sin, z, q2));
    assert(calc.gives(Op::Times, x, sin, z, u2) && calc.gives(Op::Times, y, cos, z, v2));
    assert(p == p2 && q == q2 && u == u2 && v == v2);
    assert(calc.gives(Op::Minus, p, q, z, b.0) && calc.gives(Op::Plus, u, v, z, b.1));
}

/// Turning by a position has one result.
pub proof fn turning_is_settled<T: Copy, F: Fn(Op, T, T, T) -> T>(
    before: Seq<T>,
    head_dim: usize,
    position: usize,
    base: u32,
    calc: Calc<T, F>,
    a: Seq<T>,
    b: Seq<T>,
)
    requires
        calc.settled(),
        before.len() % 2 == 0,
        all_turned(before, a, head_dim, position, base, calc),
        all_turned(before, b, head_dim, position, base, calc),
    ensures
        a == b,
{
    let z = calc.zero;
    assert forall|i: int| 0 <= i < a.len() implies a[i] == b[i] by {
        let k = i - i % 2;
        let place = (k % (head_dim as int)) as usize;
        let c = Op::Cos(position, place, head_dim, base);
        let s = Op::Sin(position, place, head_dim, base);
        assert(is_turned(before, a, k, head_dim, position, base, calc));
        assert(is_turned(before, b, k, head_dim, position, base, calc));
        let (ca, sa) = choose|cos: T, sin: T|
            #![trigger is_turn(before[k], before[k + 1], cos, sin, calc, a[k], a[k + 1])]
            {
                &&& calc.gives(c, z, z, z, cos)
                &&& calc.gives(s, z, z, z, sin)
                &&& is_turn(before[k], before[k + 1], cos, sin, calc, a[k], a[k + 1])
            };
        let (cb, sb) = choose|cos: T, sin: T|
            #![trigger is_turn(before[k], before[k + 1], cos, sin, calc, b[k], b[k + 1])]
            {
                &&& calc.gives(c, z, z, z, cos)
                &&& calc.gives(s, z, z, z, sin)
                &&& is_turn(before[k], before[k + 1], cos, sin, calc, b[k], b[k + 1])
            };
        assert(calc.gives(c, z, z, z, ca) && calc.gives(c, z, z, z, cb));
        assert(calc.gives(s, z, z, z, sa) && calc.gives(s, z, z, z, sb));
        lemma_turn_is_settled(
            before[k],
            before[k + 1],
            ca,
            sa,
            calc,
            (a[k], a[k + 1]),
            (b[k], b[k + 1]),
        );
    }
    assert(a =~= b);
}

/// What a chain of operations comes to has one result.
pub proof fn lemma_fold_is_settled<T: Copy, F: Fn(Op, T, T, T) -> T>(
    items: Seq<T>,
    start: T,
    o: Op,
    calc: Calc<T, F>,
    a: Seq<T>,
    b: Seq<T>,
    n: int,
)
    requires
        calc.settled(),
        folded(a, items, start, o, calc),
        folded(b, items, start, o, calc),
        0 <= n < a.len(),
        n < b.len(),
    ensures
        a[n] == b[n],
    decreases n,
{
    if n > 0 {
        lemma_fold_is_settled(items, start, o, calc, a, b, n - 1);
        assert(calc.gives(o, a[n - 1], items[n - 1], calc.zero, a[n]));
        assert(calc.gives(o, b[n - 1], items[n - 1], calc.zero, b[n]));
    }
}

/// Shares have one result.
pub proof fn shares_are_settled<T: Copy, F: Fn(Op, T, T, T) -> T>(
    values: Seq<T>,
    calc: Calc<T, F>,
    a: Seq<T>,
    b: Seq<T>,
)
    requires
        calc.settled(),
        are_shares(values, calc, a),
        are_shares(values, calc, b),
    ensures
        a == b,
{
    let z = calc.zero;
    let low = Op::Single(0xff80_0000);
    let n = values.len() as int;
    let (l, m, r, t) = choose|lowest: T, maxes: Seq<T>, raised: Seq<T>, totals: Seq<T>|
        {
            &&& calc.gives(low, z, z, z, lowest)
            &&& #[trigger] folded(maxes, values, lowest, Op::Larger, calc)
            &&& maxes.len() == values.len() + 1
            &&& raised.len() == values.len()
            &&& forall|i: int|
                0 <= i < values.len() ==> calc.gives(
                    Op::Raise,
                    values[i],
                    maxes.last(),
                    z,
                    #[trigger] raised[i],
                )
            &&& #[trigger] folded(totals, raised, z, Op::Plus, calc)
            &&& totals.len() == values.len() + 1
            &&& forall|i: int|
                0 <= i < values.len() ==> calc.gives(
                    Op::Over,
                    raised[i],
                    totals.last(),
                    z,
                    #[trigger] a[i],
                )
        };
    let (l2, m2, r2, t2) = choose|lowest: T, maxes: Seq<T>, raised: Seq<T>, totals: Seq<T>|
        {
            &&& calc.gives(low, z, z, z, lowest)
            &&& #[trigger] folded(maxes, values, lowest, Op::Larger, calc)
            &&& maxes.len() == values.len() + 1
            &&& raised.len() == values.len()
            &&& forall|i: int|
                0 <= i < values.len() ==> calc.gives(
                    Op::Raise,
                    values[i],
                    maxes.last(),
                    z,
                    #[trigger] raised[i],
                )
            &&& #[trigger] folded(totals, raised, z, Op::Plus, calc)
            &&& totals.len() == values.len() + 1
            &&& forall|i: int|
                0 <= i < values.len() ==> calc.gives(
                    Op::Over,
                    raised[i],
                    totals.last(),
                    z,
                    #[trigger] b[i],
                )
        };
    assert(calc.gives(low, z, z, z, l) && calc.gives(low, z, z, z, l2));
    lemma_fold_is_settled(values, l, Op::Larger, calc, m, m2, n);
    assert forall|i: int| 0 <= i < n implies r[i] == r2[i] by {
        assert(calc.gives(Op::Raise, values[i], m.last(), z, r[i]));
        assert(calc.gives(Op::Raise, values[i], m2.last(), z, r2[i]));
    }
    assert(r =~= r2);
    lemma_fold_is_settled(r, z, Op::Plus, calc, t, t2, n);
    assert forall|i: int| 0 <= i < n implies a[i] == b[i] by {
        assert(calc.gives(Op::Over, r[i], t.last(), z, a[i]));
        assert(calc.gives(Op::Over, r2[i], t2.last(), z, b[i]));
    }
    assert(a =~= b);
}

proof fn lemma_score_is_settled<T: Copy, F: Fn(Op, T, T, T) -> T>(
    query: Seq<T>,
    key: Seq<T>,
    scale: AttentionScale,
    calc: Calc<T, F>,
    a: T,
    b: T,
)
    requires
        calc.settled(),
        is_score(query, key, scale, calc, a),
        is_score(query, key, scale, calc, b),
    ensures
        a == b,
{
    let z = calc.zero;
    let o = scale.op();
    let s = choose|s: T|
        #[trigger] gathered(pairs(query, key), z, calc, s) && calc.gives(o, s, z, z, a);
    let t = choose|s: T|
        #[trigger] gathered(pairs(query, key), z, calc, s) && calc.gives(o, s, z, z, b);
    sums_are_unique(pairs(query, key), z, calc, s, t);
    assert(calc.gives(o, s, z, z, a) && calc.gives(o, s, z, z, b));
}

proof fn lemma_answer_is_settled<T: Copy, F: Fn(Op, T, T, T) -> T>(
    query: Seq<T>,
    keys: Seq<T>,
    values: Seq<T>,
    kv_head: int,
    s: GqaAttentionShape,
    calc: Calc<T, F>,
    a: Seq<T>,
    b: Seq<T>,
)
    requires
        calc.settled(),
        is_answer(query, keys, values, kv_head, s, calc, a),
        is_answer(query, keys, values, kv_head, s, calc, b),
    ensures
        a == b,
{
    let (sa, pa) = choose|scores: Seq<T>, shares: Seq<T>|
        {
            &&& scores.len() == s.token_count
            &&& are_scores(query, keys, kv_head, s, calc, scores)
            &&& #[trigger] are_shares(scores, calc, shares)
            &&& is_mixed(shares, values, kv_head, s, calc, a)
        };
    let (sb, pb) = choose|scores: Seq<T>, shares: Seq<T>|
        {
            &&& scores.len() == s.token_count
            &&& are_scores(query, keys, kv_head, s, calc, scores)
            &&& #[trigger] are_shares(scores, calc, shares)
            &&& is_mixed(shares, values, kv_head, s, calc, b)
        };
    assert forall|t: int| 0 <= t < sa.len() implies sa[t] == sb[t] by {
        lemma_score_is_settled(
            query,
            row(keys, t * s.head_count_kv + kv_head, s.head_dim as int),
            s.attn_scale,
            calc,
            sa[t],
            sb[t],
        );
    }
    assert(sa =~= sb);
    shares_are_settled(sa, calc, pa, pb);
    assert forall|d: int| 0 <= d < a.len() implies a[d] == b[d] by {
        sums_are_unique(value_terms(pa, values, kv_head, s, d), calc.zero, calc, a[d], b[d]);
    }
    assert(a =~= b);
}

/// Attention has one result.
pub proof fn attention_is_settled<T: Copy, F: Fn(Op, T, T, T) -> T>(
    query: Seq<T>,
    keys: Seq<T>,
    values: Seq<T>,
    s: GqaAttentionShape,
    calc: Calc<T, F>,
    a: Seq<T>,
    b: Seq<T>,
    count: int,
)
    requires
        calc.settled(),
        0 < s.head_dim,
        0 <= count,
        are_answers(query, keys, values, s, calc, a, count),
        are_answers(query, keys, values, s, calc, b, count),
    ensures
        a == b,
{
    assert forall|h: int| 0 <= h < count implies #[trigger] row(a, h, s.head_dim as int) == row(
        b,
        h,
        s.head_dim as int,
    ) by {
        lemma_answer_is_settled(
            row(query, h, s.head_dim as int),
            keys,
            values,
            h / (s.head_count as int / s.head_count_kv as int),
            s,
            calc,
            row(a, h, s.head_dim as int),
            row(b, h, s.head_dim as int),
        );
    }
    lemma_same_rows(a, b, count, s.head_dim as int);
}

/// An operation on pairs has one result.
pub proof fn zipping_is_settled<T: Copy, F: Fn(Op, T, T, T) -> T>(
    x: Seq<T>,
    y: Seq<T>,
    o: Op,
    calc: Calc<T, F>,
    a: Seq<T>,
    b: Seq<T>,
)
    requires
        calc.settled(),
        is_zipped(x, y, o, calc, a),
        is_zipped(x, y, o, calc, b),
    ensures
        a == b,
{
    assert forall|i: int| 0 <= i < a.len() implies a[i] == b[i] by {
        assert(calc.gives(o, x[i], y[i], calc.zero, a[i]));
        assert(calc.gives(o, x[i], y[i], calc.zero, b[i]));
    }
    assert(a =~= b);
}

/// Query, key and value of a token have one result.
pub proof fn preparing_is_settled<T: Copy, F: Fn(Op, T, T, T) -> T>(
    w: LayerView<T>,
    hidden: Seq<T>,
    position: usize,
    base_text: Seq<char>,
    calc: Calc<T, F>,
    a: (Seq<T>, Seq<T>, Seq<T>, Seq<T>),
    b: (Seq<T>, Seq<T>, Seq<T>, Seq<T>),
)
    requires
        calc.settled(),
        w.error(hidden.len(), base_text) is None,
        w.is_prepared(hidden, position, calc, a.0, a.1, a.2, a.3),
        w.is_prepared(hidden, position, calc, b.0, b.1, b.2, b.3),
    ensures
        a == b,
{
    let s = w.shape;
    let q = s.queries()->Ok_0 as int;
    let kv = s.keys()->Ok_0 as int;
    let d = s.head_dim as int;
    norm_is_settled(hidden, w.attention_norm_weight, s.rms_norm_eps, calc, a.0, b.0);
    let (all, qf, kf) = choose|all: Seq<T>, q_flat: Seq<T>, k_flat: Seq<T>|
        {
            &&& all.len() == q + 2 * kv
            &&& #[trigger] is_linear(a.0, w.wqkv_weight, calc, all)
            &&& is_heads_norm(
                all.subrange(0, q),
                w.q_norm_weight,
                d,
                s.rms_norm_eps,
                calc,
                q_flat,
            )
            &&& is_heads_norm(
                all.subrange(q, q + kv),
                w.k_norm_weight,
                d,
                s.rms_norm_eps,
                calc,
                k_flat,
            )
            &&& #[trigger] all_turned(q_flat, a.1, s.head_dim, position, s.rope_base, calc)
            &&& #[trigger] all_turned(k_flat, a.2, s.head_dim, position, s.rope_base, calc)
            &&& a.3 == all.subrange(q + kv, q + 2 * kv)
        };
    let (all2, qf2, kf2) = choose|all: Seq<T>, q_flat: Seq<T>, k_flat: Seq<T>|
        {
            &&& all.len() == q + 2 * kv
            &&& #[trigger] is_linear(b.0, w.wqkv_weight, calc, all)
            &&& is_heads_norm(
                all.subrange(0, q),
                w.q_norm_weight,
                d,
                s.rms_norm_eps,
                calc,
                q_flat,
            )
            &&& is_heads_norm(
                all.subrange(q, q + kv),
                w.k_norm_weight,
                d,
                s.rms_norm_eps,
                calc,
                k_flat,
            )
            &&& #[trigger] all_turned(q_flat, b.1, s.head_dim, position, s.rope_base, calc)
            &&& #[trigger] all_turned(k_flat, b.2, s.head_dim, position, s.rope_base, calc)
            &&& b.3 == all.subrange(q + kv, q + 2 * kv)
        };
    linear_is_settled(a.0, w.wqkv_weight, calc, all, all2);
    vstd::arithmetic::div_mod::lemma_mod_multiples_basic(s.head_count as int, d);
    vstd::arithmetic::div_mod::lemma_mod_multiples_basic(s.head_count_kv as int, d);
    heads_norm_is_settled(
        all.subrange(0, q),
        w.q_norm_weight,
        d,
        s.rms_norm_eps,
        calc,
        qf,
        qf2,
    );
    heads_norm_is_settled(
        all.subrange(q, q + kv),
        w.k_norm_weight,
        d,
        s.rms_norm_eps,
        calc,
        kf,
        kf2,
    );
    lemma_even_multiple(s.head_count as int, d);
    lemma_even_multiple(s.head_count_kv as int, d);
    turning_is_settled(qf, s.head_dim, position, s.rope_base, calc, a.1, b.1);
    turning_is_settled(kf, s.head_dim, position, s.rope_base, calc, a.2, b.2);
}

proof fn lemma_even_multiple(n: int, d: int)
    requires
        d % 2 == 0,
    ensures
        (n * d) % 2 == 0,
{
    let half = d / 2;
    assert(n * d == 2 * (n * half)) by (nonlinear_arith)
        requires
            d == 2 * half,
    ;
}

/// Attention, projection and new hidden state of a token have one result.
pub proof fn finishing_is_settled<T: Copy, F: Fn(Op, T, T, T) -> T>(
    w: LayerView<T>,
    hidden: Seq<T>,
    query: Seq<T>,
    c: CacheView<T>,
    layer: usize,
    visible: usize,
    calc: Calc<T, F>,
    a: (Seq<T>, Seq<T>, Seq<T>),
    b: (Seq<T>, Seq<T>, Seq<T>),
)
    requires
        calc.settled(),
        c.head_dim > 0,
        w.is_finished(hidden, query, c, layer, visible, calc, a.0, a.1, a.2),
        w.is_finished(hidden, query, c, layer, visible, calc, b.0, b.1, b.2),
    ensures
        a == b,
{
    attention_is_settled(
        query,
        first_rows(c, c.keys, layer, visible as int),
        first_rows(c, c.values, layer, visible as int),
        cache_shape(c, w.shape.head_count, visible, w.shape.scale()),
        calc,
        a.0,
        b.0,
        w.shape.head_count as int,
    );
    linear_is_settled(a.0, w.output_weight, calc, a.1, b.1);
    zipping_is_settled(hidden, a.1, Op::Plus, calc, a.2, b.2);
}

/// The feed-forward part has one result.
pub proof fn feeding_is_settled<T: Copy, F: Fn(Op, T, T, T) -> T>(
    w: LayerView<T>,
    hidden: Seq<T>,
    calc: Calc<T, F>,
    a: SlowArLayerFeedForwardOutput<T>,
    b: SlowArLayerFeedForwardOutput<T>,
)
    requires
        calc.settled(),
        w.is_fed(hidden, calc, a),
        w.is_fed(hidden, calc, b),
    ensures
        a.hidden@ == b.hidden@,
{
    norm_is_settled(
        hidden,
        w.ffn_norm_weight,
        w.shape.rms_norm_eps,
        calc,
        a.normalized@,
        b.normalized@,
    );
    linear_is_settled(a.normalized@, w.feed_forward_w1_weight, calc, a.gate@, b.gate@);
    linear_is_settled(a.normalized@, w.feed_forward_w3_weight, calc, a.up@, b.up@);
    zipping_is_settled(a.gate@, a.up@, Op::Gate, calc, a.activated@, b.activated@);
    linear_is_settled(a.activated@, w.feed_forward_w2_weight, calc, a.projected@, b.projected@);
    zipping_is_settled(hidden, a.projected@, Op::Plus, calc, a.hidden@, b.hidden@);
}

/// Whether two outputs hold the same values.
pub open spec fn same_output<T>(
    a: SlowArLayerForwardOutput<T>,
    b: SlowArLayerForwardOutput<T>,
) -> bool {
    &&& a.normalized@ == b.normalized@
    &&& a.query@ == b.query@
    &&& a.key@ == b.key@
    &&& a.value@ == b.value@
    &&& a.attention@ == b.attention@
    &&& a.projected@ == b.projected@
    &&& a.hidden@ == b.hidden@
}

proof fn lemma_same_prepared<T: Copy, F: Fn(Op, T, T, T) -> T>(
    w: LayerView<T>,
    hidden: Seq<T>,
    c: CacheView<T>,
    d: CacheView<T>,
    layer: usize,
    position: usize,
    base_text: Seq<char>,
    calc: Calc<T, F>,
    a: SlowArLayerForwardOutput<T>,
    b: SlowArLayerForwardOutput<T>,
)
    requires
        calc.settled(),
        w.error(hidden.len(), base_text) is None,
        w.is_attended(hidden, c, layer, position, calc, a),
        w.is_attended(hidden, d, layer, position, calc, b),
    ensures
        a.normalized@ == b.normalized@,
        a.query@ == b.query@,
        a.key@ == b.key@,
        a.value@ == b.value@,
{
    preparing_is_settled(
        w,
        hidden,
        position,
        base_text,
        calc,
        (a.normalized@, a.query@, a.key@, a.value@),
        (b.normalized@, b.query@, b.key@, b.value@),
    );
}

proof fn lemma_same_finished<T: Copy, F: Fn(Op, T, T, T) -> T>(
    w: LayerView<T>,
    hidden: Seq<T>,
    c: CacheView<T>,
    layer: usize,
    position: usize,
    calc: Calc<T, F>,
    a: SlowArLayerForwardOutput<T>,
    b: SlowArLayerForwardOutput<T>,
)
    requires
        calc.settled(),
        c.head_dim > 0,
        a.query@ == b.query@,
        w.is_attended(hidden, c, layer, position, calc, a),
        w.is_attended(hidden, c, layer, position, calc, b),
    ensures
        a.attention@ == b.attention@,
        a.projected@ == b.projected@,
        a.hidden@ == b.hidden@,
{
    finishing_is_settled(
        w,
        hidden,
        a.query@,
        c,
        layer,
        (position + 1) as usize,
        calc,
        (a.attention@, a.projected@, a.hidden@),
        (b.attention@, b.projected@, b.hidden@),
    );
}

proof fn lemma_no_errors<T: Copy>(
    w: LayerView<T>,
    hidden: Seq<Seq<T>>,
    before: CacheView<T>,
    layer: usize,
    start: usize,
    base_text: Seq<char>,
    i: int,
)
    requires
        w.prefill_error(hidden, before, layer, start, base_text) is None,
        0 <= i < hidden.len(),
    ensures
        w.error(hidden[i].len(), base_text) is None,
        before.head_dim > 0,
{
    let n = hidden.len() as int;
    no_first_where_none(w.prepare_errors(hidden, start, base_text), 0, n);
    no_first_where_none(w.store_errors(before, layer, start), 0, n);
    assert(w.prepare_errors(hidden, start, base_text)(i) is None);
    assert(w.store_errors(before, layer, start)(i) is None);
}

/// Working on tokens one after another and working on them at once give the same outputs and leave
/// the same cache: both are sequences of the kind spoken of here, and there is only one.
pub proof fn decoding_and_prefilling_agree<T: Copy, F: Fn(Op, T, T, T) -> T>(
    w: LayerView<T>,
    hidden: Seq<Seq<T>>,
    before: CacheView<T>,
    layer: usize,
    start: usize,
    base_text: Seq<char>,
    calc: Calc<T, F>,
    decoded: Seq<SlowArLayerForwardOutput<T>>,
    decoded_cache: CacheView<T>,
    prefilled: Seq<SlowArLayerForwardOutput<T>>,
    prefilled_cache: CacheView<T>,
)
    requires
        calc.settled(),
        w.prefill_error(hidden, before, layer, start, base_text) is None,
        w.is_attended_sequence(hidden, before, layer, start, calc, decoded, decoded_cache),
        w.is_attended_sequence(hidden, before, layer, start, calc, prefilled, prefilled_cache),
    ensures
        decoded_cache == prefilled_cache,
        decoded.len() == prefilled.len(),
        forall|i: int|
            0 <= i < decoded.len() ==> same_output(#[trigger] decoded[i], prefilled[i]),
{
    let n = hidden.len() as int;
    assert forall|i: int| 0 <= i < n implies output_kv(decoded)[i] == output_kv(prefilled)[i] by {
        lemma_no_errors(w, hidden, before, layer, start, base_text, i);
        lemma_same_prepared(
            w,
            hidden[i],
            decoded_cache,
            prefilled_cache,
            layer,
            (start + i) as usize,
            base_text,
            calc,
            decoded[i],
            prefilled[i],
        );
    }
    assert(output_kv(decoded) =~= output_kv(prefilled));
    assert forall|i: int| 0 <= i < n implies same_output(#[trigger] decoded[i], prefilled[i]) by {
        lemma_no_errors(w, hidden, before, layer, start, base_text, i);
        lemma_same_prepared(
            w,
            hidden[i],
            decoded_cache,
            prefilled_cache,
            layer,
            (start + i) as usize,
            base_text,
            calc,
            decoded[i],
            prefilled[i],
        );
        lemma_stored_shape(before, layer, start as int, output_kv(decoded));
        lemma_same_finished(
            w,
            hidden[i],
            decoded_cache,
            layer,
            (start + i) as usize,
            calc,
            decoded[i],
            prefilled[i],
        );
    }
}

/// Tokens can be worked on one after another exactly where they can be worked on at once.
pub proof fn decoding_and_prefilling_succeed_together<T: Copy>(
    w: LayerView<T>,
    hidden: Seq<Seq<T>>,
    before: CacheView<T>,
    layer: usize,
    start: usize,
    base_text: Seq<char>,
)
    ensures
        w.prefill_error(hidden, before, layer, start, base_text) is None <==> first_of(
            w.decode_errors(hidden, before, layer, start, base_text),
            0,
            hidden.len() as int,
        ) is None,
{
    let n = hidden.len() as int;
    let p = w.prepare_errors(hidden, start, base_text);
    let s = w.store_errors(before, layer, start);
    let a = w.ask_errors(before, layer, start);
    let d = w.decode_errors(hidden, before, layer, start, base_text);
    no_first_where_none(p, 0, n);
    no_first_where_none(s, 0, n);
    no_first_where_none(a, 0, n);
    no_first_where_none(d, 0, n);
    if first_of(d, 0, n) is None {
        assert forall|k: int| 0 <= k < n implies #[trigger] p(k) is None by {
            assert(d(k) is None);
        }
        assert forall|k: int| 0 <= k < n implies #[trigger] s(k) is None by {
            assert(d(k) is None);
        }
        assert forall|k: int| 0 <= k < n implies #[trigger] a(k) is None by {
            assert(d(k) is None);
        }
    }
    if first_of(p, 0, n) is None && first_of(s, 0, n) is None && first_of(a, 0, n) is None {
        assert forall|k: int| 0 <= k < n implies #[trigger] d(k) is None by {
            assert(p(k) is None);
            assert(s(k) is None);
            assert(a(k) is None);
        }
    }
}

proof fn lemma_stored_shape<T>(
    c: CacheView<T>,
    layer: usize,
    start: int,
    kv: Seq<(Seq<T>, Seq<T>)>,
)
    ensures
        stored(c, layer, start, kv).shaped_as(c),
    decreases kv.len(),
{
    if kv.len() > 0 {
        lemma_stored_shape(c, layer, start, kv.drop_last());
    }
}

} // verus!
