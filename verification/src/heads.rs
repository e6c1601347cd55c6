//! What attention comes to, head by head and token by token.
use crate::attention::{
    are_answers, are_shares, is_answer, AttentionScale, GqaAttentionShape,
};
use crate::numeric::{gathered, pairs, row, Calc, Op};
use crate::sums::{adds_up, part, rows_lie_behind_each_other, sums_add_products};
use vstd::prelude::*;

verus! {

/// Whether a score is the product of a query and a key, divided by the root of a size or multiplied
/// by a number.
pub open spec fn is_weighed<T: Copy, F: Fn(Op, T, T, T) -> T>(
    query: Seq<T>,
    key: Seq<T>,
    scale: AttentionScale,
    calc: Calc<T, F>,
    product: T,
    score: T,
) -> bool {
    &&& adds_up(calc.zero, query, key, calc, product)
    &&& match scale {
        AttentionScale::OfHead(size) => calc.gives(
            Op::HeadScale(size),
            product,
            calc.zero,
            calc.zero,
            score,
        ),
        AttentionScale::Number(bits) => calc.gives(
            Op::ScaleBy(bits),
            product,
            calc.zero,
            calc.zero,
            score,
        ),
    }
}

/// Where the values of a key head of a token start, where tokens have one value after another for
/// each of their key heads.
pub open spec fn head_start(token: int, heads: int, head: int, size: int) -> int {
    (token * heads + head) * size
}

/// Whether the answer of a head is made of the values of all tokens: each token counts by the share
/// that its score has, and its score is that of its key and the query of the head.
pub open spec fn head_answers<T: Copy, F: Fn(Op, T, T, T) -> T>(
    query: Seq<T>,
    keys: Seq<T>,
    values: Seq<T>,
    s: GqaAttentionShape,
    key_head: int,
    calc: Calc<T, F>,
    out: Seq<T>,
    products: Seq<T>,
    scores: Seq<T>,
    shares: Seq<T>,
) -> bool {
    let size = s.head_dim as int;
    let heads = s.head_count_kv as int;
    &&& products.len() == s.token_count
    &&& scores.len() == s.token_count
    &&& shares.len() == s.token_count
    &&& forall|t: int|
        0 <= t < s.token_count ==> is_weighed(
            query,
            part(keys, head_start(t, heads, key_head, size), size),
            s.attn_scale,
            calc,
            products[t],
            #[trigger] scores[t],
        )
    &&& are_shares(scores, calc, shares)
    &&& forall|d: int|
        0 <= d < size ==> adds_up(
            calc.zero,
            shares,
            Seq::new(
                s.token_count as nat,
                |t: int| values[head_start(t, heads, key_head, size) + d],
            ),
            calc,
            #[trigger] out[d],
        )
}

/// Query head `h` asks the keys of the key head that it shares with its group, and its answer is
/// mixed from the values of the same head.
pub proof fn heads_ask_their_group<T: Copy, F: Fn(Op, T, T, T) -> T>(
    query: Seq<T>,
    keys: Seq<T>,
    values: Seq<T>,
    s: GqaAttentionShape,
    calc: Calc<T, F>,
    out: Seq<T>,
    h: int,
)
    requires
        are_answers(query, keys, values, s, calc, out, s.head_count as int),
        0 <= h < s.head_count,
        0 < s.head_dim,
        0 < s.head_count_kv,
        s.head_count as int % (s.head_count_kv as int) == 0,
        query.len() == s.head_count * s.head_dim,
        keys.len() == (s.token_count * s.head_count_kv) * s.head_dim,
        values.len() == keys.len(),
    ensures
        out.len() == query.len(),
        exists|products: Seq<T>, scores: Seq<T>, shares: Seq<T>|
            #[trigger] head_answers(
                part(query, h * s.head_dim, s.head_dim as int),
                keys,
                values,
                s,
                h / (s.head_count as int / s.head_count_kv as int),
                calc,
                part(out, h * s.head_dim, s.head_dim as int),
                products,
                scores,
                shares,
            ),
{
    let size = s.head_dim as int;
    let heads = s.head_count_kv as int;
    let kv = h / (s.head_count as int / heads);
    lemma_key_head(h, s.head_count as int, heads);
    crate::arith::lemma_rows_monotone(h + 1, s.head_count as int, size);
    crate::arith::lemma_next_row(h, size);
    rows_lie_behind_each_other(query, h, size);
    rows_lie_behind_each_other(out, h, size);
    let asked = row(query, h, size);
    let made = row(out, h, size);
    assert(is_answer(asked, keys, values, kv, s, calc, made));
    let (scores, shares) = choose|scores: Seq<T>, shares: Seq<T>|
        {
            &&& scores.len() == s.token_count
            &&& crate::attention::are_scores(asked, keys, kv, s, calc, scores)
            &&& #[trigger] are_shares(scores, calc, shares)
            &&& crate::attention::is_mixed(shares, values, kv, s, calc, made)
        };
    let products = Seq::new(
        s.token_count as nat,
        |t: int| product_for(asked, keys, s, kv, calc, scores, t),
    );
    assert forall|t: int| 0 <= t < s.token_count implies is_weighed(
        asked,
        part(keys, head_start(t, heads, kv, size), size),
        s.attn_scale,
        calc,
        products[t],
        #[trigger] scores[t],
    ) by {
        lemma_score(asked, keys, s, kv, calc, scores, t);
    }
    assert forall|d: int| 0 <= d < size implies adds_up(
        calc.zero,
        shares,
        Seq::new(s.token_count as nat, |t: int| values[head_start(t, heads, kv, size) + d]),
        calc,
        #[trigger] made[d],
    ) by {
        lemma_mixed(shares, values, s, kv, calc, made, d);
    }
    assert(head_answers(asked, keys, values, s, kv, calc, made, products, scores, shares));
}

spec fn product_for<T: Copy, F: Fn(Op, T, T, T) -> T>(
    query: Seq<T>,
    keys: Seq<T>,
    s: GqaAttentionShape,
    kv: int,
    calc: Calc<T, F>,
    scores: Seq<T>,
    t: int,
) -> T {
    choose|p: T|
        is_weighed(
            query,
            part(keys, head_start(t, s.head_count_kv as int, kv, s.head_dim as int), s.head_dim as int),
            s.attn_scale,
            calc,
            p,
            scores[t],
        )
}

proof fn lemma_key_head(h: int, count: int, heads: int)
    requires
        0 <= h < count,
        0 < heads,
        count % heads == 0,
    ensures
        0 <= h / (count / heads) < heads,
{
    let group = count / heads;
    vstd::arithmetic::div_mod::lemma_fundamental_div_mod(count, heads);
    assert(group > 0) by (nonlinear_arith)
        requires
            heads * group == count,
            0 < heads,
            0 < count,
    ;
    vstd::arithmetic::div_mod::lemma_fundamental_div_mod(h, group);
    vstd::arithmetic::div_mod::lemma_mod_bound(h, group);
    vstd::arithmetic::div_mod::lemma_div_pos_is_pos(h, group);
    let kv = h / group;
    assert(kv < heads) by (nonlinear_arith)
        requires
            group * kv <= h,
            h < heads * group,
            group > 0,
    ;
}

proof fn lemma_head_inside<T>(table: Seq<T>, s: GqaAttentionShape, kv: int, t: int)
    requires
        0 <= kv < s.head_count_kv,
        0 <= t < s.token_count,
        table.len() == (s.token_count * s.head_count_kv) * s.head_dim,
    ensures
        row(table, t * s.head_count_kv + kv, s.head_dim as int) == part(
            table,
            head_start(t, s.head_count_kv as int, kv, s.head_dim as int),
            s.head_dim as int,
        ),
{
    let size = s.head_dim as int;
    let heads = s.head_count_kv as int;
    let at = t * heads + kv;
    crate::arith::lemma_cell(t, s.token_count as int, kv, heads);
    crate::arith::lemma_rows_monotone(at + 1, s.token_count * heads, size);
    crate::arith::lemma_next_row(at, size);
    rows_lie_behind_each_other(table, at, size);
}

proof fn lemma_score<T: Copy, F: Fn(Op, T, T, T) -> T>(
    query: Seq<T>,
    keys: Seq<T>,
    s: GqaAttentionShape,
    kv: int,
    calc: Calc<T, F>,
    scores: Seq<T>,
    t: int,
)
    requires
        crate::attention::are_scores(query, keys, kv, s, calc, scores),
        scores.len() == s.token_count,
        query.len() == s.head_dim,
        0 <= kv < s.head_count_kv,
        0 <= t < s.token_count,
        keys.len() == (s.token_count * s.head_count_kv) * s.head_dim,
    ensures
        is_weighed(
            query,
            part(keys, head_start(t, s.head_count_kv as int, kv, s.head_dim as int), s.head_dim as int),
            s.attn_scale,
            calc,
            product_for(query, keys, s, kv, calc, scores, t),
            scores[t],
        ),
{
    lemma_head_inside(keys, s, kv, t);
    let key = row(keys, t * s.head_count_kv + kv, s.head_dim as int);
    assert(crate::attention::is_score(query, key, s.attn_scale, calc, scores[t]));
    let p = choose|p: T|
        #[trigger] gathered(pairs(query, key), calc.zero, calc, p) && calc.gives(
            s.attn_scale.op(),
            p,
            calc.zero,
            calc.zero,
            scores[t],
        );
    sums_add_products(pairs(query, key), calc.zero, calc, query, key, p);
    assert(is_weighed(query, key, s.attn_scale, calc, p, scores[t]));
}

proof fn lemma_mixed<T: Copy, F: Fn(Op, T, T, T) -> T>(
    shares: Seq<T>,
    values: Seq<T>,
    s: GqaAttentionShape,
    kv: int,
    calc: Calc<T, F>,
    out: Seq<T>,
    d: int,
)
    requires
        crate::attention::is_mixed(shares, values, kv, s, calc, out),
        shares.len() == s.token_count,
        0 <= d < out.len(),
        out.len() == s.head_dim,
        0 <= kv < s.head_count_kv,
        values.len() == (s.token_count * s.head_count_kv) * s.head_dim,
    ensures
        adds_up(
            calc.zero,
            shares,
            Seq::new(
                s.token_count as nat,
                |t: int| values[head_start(t, s.head_count_kv as int, kv, s.head_dim as int) + d],
            ),
            calc,
            out[d],
        ),
{
    let column = Seq::new(
        s.token_count as nat,
        |t: int| values[head_start(t, s.head_count_kv as int, kv, s.head_dim as int) + d],
    );
    let terms = crate::attention::value_terms(shares, values, kv, s, d);
    assert forall|t: int| 0 <= t < terms.len() implies #[trigger] terms[t] == (
        shares[t],
        column[t],
    ) by {
        lemma_head_inside(values, s, kv, t);
    }
    sums_add_products(terms, calc.zero, calc, shares, column, out[d]);
}

} // verus!
