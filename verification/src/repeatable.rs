//! The same logits and the same random number give the same token.
use crate::attention::folded;
use crate::chosen::{
    are_bits, are_probabilities, are_raised, are_shared, is_chosen, is_place, is_sampled, kept_of,
    values_at,
};
use crate::numeric::{Calc, Op};
use crate::sampling::{candidates, is_nucleus, is_pick, judged, Judge, Relation, SamplerParams};
use crate::settled::lemma_fold_is_settled;
use vstd::prelude::*;

verus! {

/// Whether the bits of a value and every comparison have one result only.
pub open spec fn judges_once<T, B: Fn(T) -> u32, G: Fn(Relation, T, T) -> bool>(
    judge: Judge<B, G>,
) -> bool {
    &&& forall|a: T, x: u32, y: u32|
        #![trigger call_ensures(judge.bits, (a,), x), call_ensures(judge.bits, (a,), y)]
        call_ensures(judge.bits, (a,), x) && call_ensures(judge.bits, (a,), y) ==> x == y
    &&& forall|o: Relation, a: T, b: T|
        !(#[trigger] judged(judge, o, a, b, true) && judged(judge, o, a, b, false))
}

proof fn lemma_shared_once<T: Copy, F: Fn(Op, T, T, T) -> T>(
    values: Seq<T>,
    calc: Calc<T, F>,
    a: Seq<T>,
    b: Seq<T>,
)
    requires
        calc.settled(),
        are_shared(values, calc, a),
        are_shared(values, calc, b),
    ensures
        a == b,
{
    let z = calc.zero;
    let s = choose|totals: Seq<T>|
        {
            &&& #[trigger] folded(totals, values, z, Op::Plus, calc)
            &&& totals.len() == values.len() + 1
            &&& forall|i: int|
                0 <= i < values.len() ==> calc.gives(
                    Op::Share,
                    values[i],
                    totals.last(),
                    z,
                    #[trigger] a[i],
                )
        };
    let t = choose|totals: Seq<T>|
        {
            &&& #[trigger] folded(totals, values, z, Op::Plus, calc)
            &&& totals.len() == values.len() + 1
            &&& forall|i: int|
                0 <= i < values.len() ==> calc.gives(
                    Op::Share,
                    values[i],
                    totals.last(),
                    z,
                    #[trigger] b[i],
                )
        };
    lemma_fold_is_settled(values, z, Op::Plus, calc, s, t, values.len() as int);
    assert forall|i: int| 0 <= i < a.len() implies a[i] == b[i] by {
        assert(calc.gives(Op::Share, values[i], s.last(), z, a[i]));
        assert(calc.gives(Op::Share, values[i], t.last(), z, b[i]));
    }
    assert(a =~= b);
}

proof fn lemma_raised_once<T: Copy, F: Fn(Op, T, T, T) -> T>(
    values: Seq<T>,
    temperature: u32,
    calc: Calc<T, F>,
    a: Seq<T>,
    b: Seq<T>,
)
    requires
        calc.settled(),
        are_raised(values, temperature, calc, a),
        are_raised(values, temperature, calc, b),
    ensures
        a == b,
{
    let z = calc.zero;
    let o = Op::Temper(temperature);
    let low = Op::Single(0xff80_0000);
    let (l, s) = choose|lowest: T, maxes: Seq<T>|
        {
            &&& calc.gives(low, z, z, z, lowest)
            &&& #[trigger] folded(maxes, values, lowest, Op::Larger, calc)
            &&& maxes.len() == values.len() + 1
            &&& forall|i: int|
                0 <= i < values.len() ==> calc.gives(o, values[i], maxes.last(), z, #[trigger] a[i])
        };
    let (m, t) = choose|lowest: T, maxes: Seq<T>|
        {
            &&& calc.gives(low, z, z, z, lowest)
            &&& #[trigger] folded(maxes, values, lowest, Op::Larger, calc)
            &&& maxes.len() == values.len() + 1
            &&& forall|i: int|
                0 <= i < values.len() ==> calc.gives(o, values[i], maxes.last(), z, #[trigger] b[i])
        };
    assert(calc.gives(low, z, z, z, l) && calc.gives(low, z, z, z, m));
    lemma_fold_is_settled(values, l, Op::Larger, calc, s, t, values.len() as int);
    assert forall|i: int| 0 <= i < a.len() implies a[i] == b[i] by {
        assert(calc.gives(o, values[i], s.last(), z, a[i]));
        assert(calc.gives(o, values[i], t.last(), z, b[i]));
    }
    assert(a =~= b);
}

proof fn lemma_probabilities_once<T: Copy, F: Fn(Op, T, T, T) -> T>(
    values: Seq<T>,
    temperature: u32,
    calc: Calc<T, F>,
    a: Seq<T>,
    b: Seq<T>,
)
    requires
        calc.settled(),
        are_probabilities(values, temperature, calc, a),
        are_probabilities(values, temperature, calc, b),
    ensures
        a == b,
{
    let r = choose|raised: Seq<T>|
        #[trigger] are_raised(values, temperature, calc, raised) && are_shared(raised, calc, a);
    let s = choose|raised: Seq<T>|
        #[trigger] are_raised(values, temperature, calc, raised) && are_shared(raised, calc, b);
    lemma_raised_once(values, temperature, calc, r, s);
    lemma_shared_once(r, calc, a, b);
}

proof fn lemma_nucleus_once<
    T: Copy,
    F: Fn(Op, T, T, T) -> T,
    B: Fn(T) -> u32,
    G: Fn(Relation, T, T) -> bool,
>(probs: Seq<T>, limit: T, calc: Calc<T, F>, judge: Judge<B, G>, a: int, b: int)
    requires
        calc.settled(),
        judges_once::<T, B, G>(judge),
        is_nucleus(probs, limit, calc, judge, a),
        is_nucleus(probs, limit, calc, judge, b),
        probs.len() > 0,
    ensures
        a >= b,
{
    if a < b {
        let s = choose|totals: Seq<T>|
            {
                &&& #[trigger] folded(totals, probs, calc.zero, Op::Plus, calc)
                &&& totals.len() == a + 1
                &&& forall|i: int|
                    0 < i < a ==> judged(
                        judge,
                        Relation::AtLeast,
                        #[trigger] totals[i],
                        limit,
                        false,
                    )
                &&& a < probs.len() ==> judged(judge, Relation::AtLeast, totals[a], limit, true)
            };
        let t = choose|totals: Seq<T>|
            {
                &&& #[trigger] folded(totals, probs, calc.zero, Op::Plus, calc)
                &&& totals.len() == b + 1
                &&& forall|i: int|
                    0 < i < b ==> judged(
                        judge,
                        Relation::AtLeast,
                        #[trigger] totals[i],
                        limit,
                        false,
                    )
                &&& b < probs.len() ==> judged(judge, Relation::AtLeast, totals[b], limit, true)
            };
        lemma_fold_is_settled(probs, calc.zero, Op::Plus, calc, s, t, a);
        assert(judged(judge, Relation::AtLeast, s[a], limit, true));
        assert(judged(judge, Relation::AtLeast, t[a], limit, false));
    }
}

proof fn lemma_pick_once<
    T: Copy,
    F: Fn(Op, T, T, T) -> T,
    B: Fn(T) -> u32,
    G: Fn(Relation, T, T) -> bool,
>(probs: Seq<T>, target: T, calc: Calc<T, F>, judge: Judge<B, G>, a: int, b: int)
    requires
        calc.settled(),
        judges_once::<T, B, G>(judge),
        is_pick(probs, target, calc, judge, a),
        is_pick(probs, target, calc, judge, b),
    ensures
        a >= b,
{
    if a < b {
        let s = choose|totals: Seq<T>|
            {
                &&& #[trigger] folded(totals, probs, calc.zero, Op::Plus, calc)
                &&& totals.len() == a + 2
                &&& forall|i: int|
                    0 < i <= a ==> judged(
                        judge,
                        Relation::Below,
                        target,
                        #[trigger] totals[i],
                        false,
                    )
                &&& a < probs.len() - 1 ==> judged(
                    judge,
                    Relation::Below,
                    target,
                    totals[a + 1],
                    true,
                )
            };
        let t = choose|totals: Seq<T>|
            {
                &&& #[trigger] folded(totals, probs, calc.zero, Op::Plus, calc)
                &&& totals.len() == b + 2
                &&& forall|i: int|
                    0 < i <= b ==> judged(
                        judge,
                        Relation::Below,
                        target,
                        #[trigger] totals[i],
                        false,
                    )
                &&& b < probs.len() - 1 ==> judged(
                    judge,
                    Relation::Below,
                    target,
                    totals[b + 1],
                    true,
                )
            };
        lemma_fold_is_settled(probs, calc.zero, Op::Plus, calc, s, t, a + 1);
        assert(judged(judge, Relation::Below, target, s[a + 1], true));
        assert(judged(judge, Relation::Below, target, t[a + 1], false));
    }
}

proof fn lemma_place_once(ids: Seq<usize>, forced: Option<u32>, a: Option<usize>, b: Option<usize>)
    requires
        is_place(ids, forced, a),
        is_place(ids, forced, b),
    ensures
        a == b,
{
    match (a, b) {
        (Some(p), Some(q)) => {
            if p < q {
                assert(ids[p as int] != forced->0);
            } else if q < p {
                assert(ids[q as int] != forced->0);
            }
        },
        (Some(p), None) => {
            assert(ids[p as int] != forced->0);
        },
        (None, Some(q)) => {
            assert(ids[q as int] != forced->0);
        },
        (None, None) => {},
    }
}

proof fn lemma_chosen_once<
    T: Copy,
    F: Fn(Op, T, T, T) -> T,
    B: Fn(T) -> u32,
    G: Fn(Relation, T, T) -> bool,
>(
    logits: Seq<T>,
    ids: Seq<usize>,
    params: SamplerParams,
    forced: Option<u32>,
    draw: u64,
    calc: Calc<T, F>,
    judge: Judge<B, G>,
    x: int,
    y: int,
)
    requires
        calc.settled(),
        judges_once::<T, B, G>(judge),
        ids.len() > 0,
        is_chosen(logits, ids, params, forced, draw, calc, judge, x),
        is_chosen(logits, ids, params, forced, draw, calc, judge, y),
    ensures
        x == y,
{
    let z = calc.zero;
    let v = values_at(logits, ids);
    let cut = Op::Single(params.top_p);
    let lot = Op::Draw(draw);
    let (p1, l1, n1, k1, s1, t1) = choose|
        probs: Seq<T>,
        limit: T,
        nucleus: int,
        place: Option<usize>,
        shares: Seq<T>,
        target: T,
    |
        {
            &&& #[trigger] are_probabilities(v, params.temperature, calc, probs)
            &&& calc.gives(cut, z, z, z, limit)
            &&& #[trigger] is_nucleus(probs, limit, calc, judge, nucleus)
            &&& #[trigger] is_place(ids, forced, place)
            &&& are_shared(probs.take(kept_of(nucleus, place)), calc, shares)
            &&& calc.gives(lot, z, z, z, target)
            &&& #[trigger] is_pick(shares, target, calc, judge, x)
        };
    let (p2, l2, n2, k2, s2, t2) = choose|
        probs: Seq<T>,
        limit: T,
        nucleus: int,
        place: Option<usize>,
        shares: Seq<T>,
        target: T,
    |
        {
            &&& #[trigger] are_probabilities(v, params.temperature, calc, probs)
            &&& calc.gives(cut, z, z, z, limit)
            &&& #[trigger] is_nucleus(probs, limit, calc, judge, nucleus)
            &&& #[trigger] is_place(ids, forced, place)
            &&& are_shared(probs.take(kept_of(nucleus, place)), calc, shares)
            &&& calc.gives(lot, z, z, z, target)
            &&& #[trigger] is_pick(shares, target, calc, judge, y)
        };
    lemma_probabilities_once(v, params.temperature, calc, p1, p2);
    assert(calc.gives(cut, z, z, z, l1) && calc.gives(cut, z, z, z, l2));
    assert(calc.gives(lot, z, z, z, t1) && calc.gives(lot, z, z, z, t2));
    lemma_probability_count(v, params.temperature, calc, p1);
    lemma_nucleus_once(p1, l1, calc, judge, n1, n2);
    lemma_nucleus_once(p1, l1, calc, judge, n2, n1);
    lemma_place_once(ids, forced, k1, k2);
    lemma_shared_once(p1.take(kept_of(n1, k1)), calc, s1, s2);
    lemma_pick_once(s1, t1, calc, judge, x, y);
    lemma_pick_once(s1, t1, calc, judge, y, x);
}

proof fn lemma_probability_count<T: Copy, F: Fn(Op, T, T, T) -> T>(
    values: Seq<T>,
    temperature: u32,
    calc: Calc<T, F>,
    a: Seq<T>,
)
    requires
        are_probabilities(values, temperature, calc, a),
    ensures
        a.len() == values.len(),
{
}

/// The same logits and the same random number give the same token, where every operation and
/// every comparison has one result.
pub proof fn sampling_is_repeatable<
    T: Copy,
    F: Fn(Op, T, T, T) -> T,
    B: Fn(T) -> u32,
    G: Fn(Relation, T, T) -> bool,
>(
    logits: Seq<T>,
    params: SamplerParams,
    forced: Option<u32>,
    draw: u64,
    calc: Calc<T, F>,
    judge: Judge<B, G>,
    a: u32,
    b: u32,
)
    requires
        calc.settled(),
        judges_once::<T, B, G>(judge),
        is_sampled(logits, params, forced, draw, calc, judge, a),
        is_sampled(logits, params, forced, draw, calc, judge, b),
    ensures
        a == b,
{
    if logits.len() > 0 {
        let (m, x) = choose|bits: Seq<u32>, choice: int|
            {
                &&& #[trigger] are_bits(logits, judge, bits)
                &&& 0 <= choice < candidates(bits, params.top_k, forced).len()
                &&& #[trigger] is_chosen(
                    logits,
                    candidates(bits, params.top_k, forced),
                    params,
                    forced,
                    draw,
                    calc,
                    judge,
                    choice,
                )
                &&& a == candidates(bits, params.top_k, forced)[choice] as u32
            };
        let (n, y) = choose|bits: Seq<u32>, choice: int|
            {
                &&& #[trigger] are_bits(logits, judge, bits)
                &&& 0 <= choice < candidates(bits, params.top_k, forced).len()
                &&& #[trigger] is_chosen(
                    logits,
                    candidates(bits, params.top_k, forced),
                    params,
                    forced,
                    draw,
                    calc,
                    judge,
                    choice,
                )
                &&& b == candidates(bits, params.top_k, forced)[choice] as u32
            };
        assert forall|i: int| 0 <= i < logits.len() implies m[i] == n[i] by {
            assert(call_ensures(judge.bits, (logits[i],), m[i]));
            assert(call_ensures(judge.bits, (logits[i],), n[i]));
        }
        assert(m =~= n);
        lemma_chosen_once(
            logits,
            candidates(m, params.top_k, forced),
            params,
            forced,
            draw,
            calc,
            judge,
            x,
            y,
        );
    }
}

} // verus!
