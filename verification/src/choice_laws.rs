//! What choosing a token comes to.
use crate::attention::folded;
use crate::chosen::{
    are_bits, are_probabilities, are_raised, are_shared, is_chosen, is_place, is_sampled,
    is_speech_token, kept_of, values_at,
};
use crate::numeric::{Calc, Op};
use crate::order::{an_order_exists, order_of};
use crate::sampling::{
    are_biased, best_ids, candidate_limit, candidates, is_added, is_nucleus, is_pick,
    larger_first, logits_of, next_state, place_of, worth_keeping, Judge, Relation, SamplerParams,
};
use vstd::prelude::*;

verus! {

// ---------------------------------------------------------------------
// Random numbers
// ---------------------------------------------------------------------

/// A state follows from the one before by one product and one sum, without what does not fit 64
/// bits.
pub proof fn states_follow_by_one_product(state: u64)
    ensures
        next_state(state) == (state * 6364136223846793005 + 1) % 0x1_0000_0000_0000_0000,
{
    let a: u64 = state.wrapping_mul(6364136223846793005);
    let p: int = state * 6364136223846793005;
    assert(a == p % 0x1_0000_0000_0000_0000);
    assert((p + 1) % 0x1_0000_0000_0000_0000 == (p % 0x1_0000_0000_0000_0000 + 1)
        % 0x1_0000_0000_0000_0000);
}

// ---------------------------------------------------------------------
// Probabilities
// ---------------------------------------------------------------------

/// Whether values are those of an operation along a list, from a start on.
pub open spec fn runs_along<T: Copy, F: Fn(Op, T, T, T) -> T>(
    chain: Seq<T>,
    start: T,
    items: Seq<T>,
    count: int,
    o: Op,
    calc: Calc<T, F>,
) -> bool {
    &&& chain.len() == count + 1
    &&& chain[0] == start
    &&& forall|k: int|
        0 <= k < count ==> calc.gives(o, #[trigger] chain[k], items[k], calc.zero, chain[k + 1])
}

proof fn lemma_runs_along<T: Copy, F: Fn(Op, T, T, T) -> T>(
    chain: Seq<T>,
    start: T,
    items: Seq<T>,
    o: Op,
    calc: Calc<T, F>,
)
    requires
        folded(chain, items, start, o, calc),
    ensures
        runs_along(chain, start, items, chain.len() - 1, o, calc),
{
}

/// Sharing out divides every value by the sum of all.
pub proof fn shares_are_of_the_sum<T: Copy, F: Fn(Op, T, T, T) -> T>(
    values: Seq<T>,
    calc: Calc<T, F>,
    out: Seq<T>,
)
    requires
        are_shared(values, calc, out),
    ensures
        out.len() == values.len(),
        exists|sums: Seq<T>|
            #[trigger] runs_along(
                sums,
                calc.zero,
                values,
                values.len() as int,
                Op::Plus,
                calc,
            ) && forall|i: int|
                0 <= i < values.len() ==> calc.gives(
                    Op::Share,
                    values[i],
                    sums.last(),
                    calc.zero,
                    #[trigger] out[i],
                ),
{
    let sums = choose|sums: Seq<T>|
        {
            &&& #[trigger] folded(sums, values, calc.zero, Op::Plus, calc)
            &&& sums.len() == values.len() + 1
            &&& forall|i: int|
                0 <= i < values.len() ==> calc.gives(
                    Op::Share,
                    values[i],
                    sums.last(),
                    calc.zero,
                    #[trigger] out[i],
                )
        };
    lemma_runs_along(sums, calc.zero, values, Op::Plus, calc);
}

/// Whether every value was raised by its distance from the largest one, which was searched from
/// minus infinity on.
pub open spec fn are_raised_from<T: Copy, F: Fn(Op, T, T, T) -> T>(
    values: Seq<T>,
    temperature: u32,
    calc: Calc<T, F>,
    lowest: T,
    maxes: Seq<T>,
    raised: Seq<T>,
) -> bool {
    &&& calc.gives(Op::Single(0xff80_0000), calc.zero, calc.zero, calc.zero, lowest)
    &&& runs_along(maxes, lowest, values, values.len() as int, Op::Larger, calc)
    &&& raised.len() == values.len()
    &&& forall|i: int|
        0 <= i < values.len() ==> calc.gives(
            Op::Temper(temperature),
            values[i],
            maxes.last(),
            calc.zero,
            #[trigger] raised[i],
        )
}

/// The probabilities of logits share out their distances from the largest logit, raised at a
/// temperature.
pub proof fn probabilities_share_raised_logits<T: Copy, F: Fn(Op, T, T, T) -> T>(
    values: Seq<T>,
    temperature: u32,
    calc: Calc<T, F>,
    out: Seq<T>,
)
    requires
        are_probabilities(values, temperature, calc, out),
    ensures
        out.len() == values.len(),
        exists|lowest: T, maxes: Seq<T>, raised: Seq<T>|
            #[trigger] are_raised_from(values, temperature, calc, lowest, maxes, raised)
                && are_shared(raised, calc, out),
{
    let raised = choose|raised: Seq<T>|
        #[trigger] are_raised(values, temperature, calc, raised) && are_shared(raised, calc, out);
    let (lowest, maxes) = choose|lowest: T, maxes: Seq<T>|
        {
            &&& calc.gives(Op::Single(0xff80_0000), calc.zero, calc.zero, calc.zero, lowest)
            &&& #[trigger] folded(maxes, values, lowest, Op::Larger, calc)
            &&& maxes.len() == values.len() + 1
            &&& forall|i: int|
                0 <= i < values.len() ==> calc.gives(
                    Op::Temper(temperature),
                    values[i],
                    maxes.last(),
                    calc.zero,
                    #[trigger] raised[i],
                )
        };
    lemma_runs_along(maxes, lowest, values, Op::Larger, calc);
    assert(are_raised_from(values, temperature, calc, lowest, maxes, raised));
}

// ---------------------------------------------------------------------
// The nucleus and the pick
// ---------------------------------------------------------------------

/// Whether a comparison has this outcome.
pub open spec fn compares_so<T, B, G: Fn(Relation, T, T) -> bool>(
    judge: Judge<B, G>,
    o: Relation,
    a: T,
    b: T,
    v: bool,
) -> bool {
    call_ensures(judge.holds, (o, a, b), v)
}

/// The nucleus is as short as it can be: no shorter beginning of the probabilities sums up to the
/// limit, and the nucleus itself does, unless it is all of them.
pub proof fn nucleus_is_shortest<
    T: Copy,
    F: Fn(Op, T, T, T) -> T,
    B: Fn(T) -> u32,
    G: Fn(Relation, T, T) -> bool,
>(probs: Seq<T>, limit: T, calc: Calc<T, F>, judge: Judge<B, G>, r: int)
    requires
        is_nucleus(probs, limit, calc, judge, r),
    ensures
        r <= probs.len(),
        probs.len() > 0 ==> r > 0,
        exists|sums: Seq<T>|
            {
                &&& #[trigger] runs_along(sums, calc.zero, probs, r, Op::Plus, calc)
                &&& forall|k: int|
                    0 < k < r ==> compares_so(
                        judge,
                        Relation::AtLeast,
                        #[trigger] sums[k],
                        limit,
                        false,
                    )
                &&& r < probs.len() ==> compares_so(
                    judge,
                    Relation::AtLeast,
                    sums[r],
                    limit,
                    true,
                )
            },
{
    let sums = choose|sums: Seq<T>|
        {
            &&& #[trigger] folded(sums, probs, calc.zero, Op::Plus, calc)
            &&& sums.len() == r + 1
            &&& forall|i: int|
                0 < i < r ==> crate::sampling::judged(
                    judge,
                    Relation::AtLeast,
                    #[trigger] sums[i],
                    limit,
                    false,
                )
            &&& r < probs.len() ==> crate::sampling::judged(
                judge,
                Relation::AtLeast,
                sums[r],
                limit,
                true,
            )
        };
    lemma_runs_along(sums, calc.zero, probs, Op::Plus, calc);
}

/// The pick is the first place whose sum of probabilities lies above the target, or the last place.
pub proof fn picks_lie_above_their_target<
    T: Copy,
    F: Fn(Op, T, T, T) -> T,
    B: Fn(T) -> u32,
    G: Fn(Relation, T, T) -> bool,
>(probs: Seq<T>, target: T, calc: Calc<T, F>, judge: Judge<B, G>, p: int)
    requires
        is_pick(probs, target, calc, judge, p),
    ensures
        0 <= p < probs.len(),
        exists|sums: Seq<T>|
            {
                &&& #[trigger] runs_along(sums, calc.zero, probs, p + 1, Op::Plus, calc)
                &&& forall|k: int|
                    0 < k <= p ==> compares_so(
                        judge,
                        Relation::Below,
                        target,
                        #[trigger] sums[k],
                        false,
                    )
                &&& p + 1 < probs.len() ==> compares_so(
                    judge,
                    Relation::Below,
                    target,
                    sums[p + 1],
                    true,
                )
            },
{
    let sums = choose|sums: Seq<T>|
        {
            &&& #[trigger] folded(sums, probs, calc.zero, Op::Plus, calc)
            &&& sums.len() == p + 2
            &&& forall|i: int|
                0 < i <= p ==> crate::sampling::judged(
                    judge,
                    Relation::Below,
                    target,
                    #[trigger] sums[i],
                    false,
                )
            &&& p < probs.len() - 1 ==> crate::sampling::judged(
                judge,
                Relation::Below,
                target,
                sums[p + 1],
                true,
            )
        };
    lemma_runs_along(sums, calc.zero, probs, Op::Plus, calc);
}

// ---------------------------------------------------------------------
// The choice
// ---------------------------------------------------------------------

/// Whether so many candidates stay for a choice: the nucleus, one at least, and all up to the forced
/// one where it is a candidate.
pub open spec fn stay(ids: Seq<usize>, nucleus: int, forced: Option<u32>, kept: int) -> bool {
    &&& kept >= nucleus
    &&& kept >= 1
    &&& forced is Some && ids.contains(forced->0 as usize) ==> ids.take(kept).contains(
        forced->0 as usize,
    )
    &&& kept == nucleus || kept == 1 || (forced is Some && kept <= ids.len() && ids[kept - 1]
        == forced->0)
}

/// Whether a choice was made so: out of the probabilities of the candidates' logits, those that stay
/// share out one anew, and a random number picks among them.
pub open spec fn is_choice<
    T: Copy,
    F: Fn(Op, T, T, T) -> T,
    B: Fn(T) -> u32,
    G: Fn(Relation, T, T) -> bool,
>(
    logits: Seq<T>,
    ids: Seq<usize>,
    params: SamplerParams,
    forced: Option<u32>,
    draw: u64,
    calc: Calc<T, F>,
    judge: Judge<B, G>,
    choice: int,
    probs: Seq<T>,
    limit: T,
    nucleus: int,
    kept: int,
    shares: Seq<T>,
    target: T,
) -> bool {
    &&& are_probabilities(
        Seq::new(ids.len(), |k: int| logits[ids[k] as int]),
        params.temperature,
        calc,
        probs,
    )
    &&& calc.gives(Op::Single(params.top_p), calc.zero, calc.zero, calc.zero, limit)
    &&& is_nucleus(probs, limit, calc, judge, nucleus)
    &&& stay(ids, nucleus, forced, kept)
    &&& are_shared(probs.take(kept), calc, shares)
    &&& calc.gives(Op::Draw(draw), calc.zero, calc.zero, calc.zero, target)
    &&& is_pick(shares, target, calc, judge, choice)
}

/// A choice falls among the candidates that stay, by their shares.
pub proof fn choices_fall_among_those_that_stay<
    T: Copy,
    F: Fn(Op, T, T, T) -> T,
    B: Fn(T) -> u32,
    G: Fn(Relation, T, T) -> bool,
>(
    logits: Seq<T>,
    ids: Seq<usize>,
    params: SamplerParams,
    forced: Option<u32>,
    draw: u64,
    calc: Calc<T, F>,
    judge: Judge<B, G>,
    choice: int,
)
    requires
        is_chosen(logits, ids, params, forced, draw, calc, judge, choice),
    ensures
        exists|
            probs: Seq<T>,
            limit: T,
            nucleus: int,
            kept: int,
            shares: Seq<T>,
            target: T,
        |
            #[trigger] is_choice(
                logits,
                ids,
                params,
                forced,
                draw,
                calc,
                judge,
                choice,
                probs,
                limit,
                nucleus,
                kept,
                shares,
                target,
            ),
{
    let (probs, limit, nucleus, place, shares, target) = choose|
        probs: Seq<T>,
        limit: T,
        nucleus: int,
        place: Option<usize>,
        shares: Seq<T>,
        target: T,
    |
        {
            &&& #[trigger] are_probabilities(
                values_at(logits, ids),
                params.temperature,
                calc,
                probs,
            )
            &&& calc.gives(Op::Single(params.top_p), calc.zero, calc.zero, calc.zero, limit)
            &&& #[trigger] is_nucleus(probs, limit, calc, judge, nucleus)
            &&& #[trigger] is_place(ids, forced, place)
            &&& are_shared(probs.take(kept_of(nucleus, place)), calc, shares)
            &&& calc.gives(Op::Draw(draw), calc.zero, calc.zero, calc.zero, target)
            &&& #[trigger] is_pick(shares, target, calc, judge, choice)
        };
    let kept = kept_of(nucleus, place);
    lemma_stay(ids, nucleus, forced, place, probs.len());
    assert(values_at(logits, ids) =~= Seq::new(ids.len(), |k: int| logits[ids[k] as int]));
    assert(is_choice(
        logits,
        ids,
        params,
        forced,
        draw,
        calc,
        judge,
        choice,
        probs,
        limit,
        nucleus,
        kept,
        shares,
        target,
    ));
}

proof fn lemma_stay(
    ids: Seq<usize>,
    nucleus: int,
    forced: Option<u32>,
    place: Option<usize>,
    count: nat,
)
    requires
        is_place(ids, forced, place),
        count == ids.len(),
        0 <= nucleus <= count,
        count > 0 ==> nucleus > 0,
    ensures
        stay(ids, nucleus, forced, kept_of(nucleus, place)),
{
    let kept = kept_of(nucleus, place);
    if forced is Some && ids.contains(forced->0 as usize) {
        let p = place->0 as int;
        assert(ids.take(kept)[p] == forced->0 as usize);
    }
}

/// A token is chosen among the candidates by its own logits; where there are no logits, it is the
/// first.
pub proof fn sampled_tokens_are_candidates<
    T: Copy,
    F: Fn(Op, T, T, T) -> T,
    B: Fn(T) -> u32,
    G: Fn(Relation, T, T) -> bool,
>(
    logits: Seq<T>,
    params: SamplerParams,
    forced: Option<u32>,
    draw: u64,
    calc: Calc<T, F>,
    judge: Judge<B, G>,
    token: u32,
)
    requires
        is_sampled(logits, params, forced, draw, calc, judge, token),
    ensures
        logits.len() == 0 ==> token == 0,
        logits.len() > 0 ==> exists|bits: Seq<u32>, choice: int|
            {
                &&& bits.len() == logits.len()
                &&& forall|i: int|
                    0 <= i < logits.len() ==> call_ensures(
                        judge.bits,
                        (logits[i],),
                        #[trigger] bits[i],
                    )
                &&& 0 <= choice < candidates(bits, params.top_k, forced).len()
                &&& #[trigger] is_chosen(
                    logits,
                    candidates(bits, params.top_k, forced),
                    params,
                    forced,
                    draw,
                    calc,
                    judge,
                    choice,
                )
                &&& token == candidates(bits, params.top_k, forced)[choice] as u32
            },
{
    if logits.len() > 0 {
        let (bits, choice) = choose|bits: Seq<u32>, choice: int|
            {
                &&& #[trigger] are_bits(logits, judge, bits)
                &&& 0 <= choice < candidates(bits, params.top_k, forced).len()
                &&& #[trigger] is_chosen(
                    logits,
                    candidates(bits, params.top_k, forced),
                    params,
                    forced,
                    draw,
                    calc,
                    judge,
                    choice,
                )
                &&& token == candidates(bits, params.top_k, forced)[choice] as u32
            };
        assert(is_chosen(
            logits,
            candidates(bits, params.top_k, forced),
            params,
            forced,
            draw,
            calc,
            judge,
            choice,
        ));
    }
}

/// Candidates are positions of logits, and stand with the largest logit first.
pub proof fn candidates_stand_by_their_logits(
    logits: Seq<u32>,
    top_k: i32,
    forced: Option<u32>,
    i: int,
    j: int,
)
    requires
        logits.len() < usize::MAX,
        0 <= i <= j < candidates(logits, top_k, forced).len(),
    ensures
        candidates(logits, top_k, forced)[i] < logits.len(),
        candidates(logits, top_k, forced)[j] < logits.len(),
        place_of(logits[candidates(logits, top_k, forced)[i] as int]) >= place_of(
            logits[candidates(logits, top_k, forced)[j] as int],
        ),
{
    let best = best_ids(logits, top_k);
    let all = if is_added(logits, top_k, forced) {
        best.push(forced->0 as usize)
    } else {
        best
    };
    an_order_exists(logits, larger_first());
    let first = order_of(logits, larger_first());
    assert forall|k: int| 0 <= k < all.len() implies #[trigger] all[k] < logits.len() by {
        if k < best.len() {
            assert(best[k] == first[k]);
        }
    }
    let keys = logits_of(logits, all);
    an_order_exists(keys, larger_first());
    let o = order_of(keys, larger_first());
    assert(o[i] < keys.len() && o[j] < keys.len());
    if i < j {
        assert(crate::order::comes_before(keys, larger_first(), o[i], o[j]));
    }
    assert(candidates(logits, top_k, forced)[i] == all[o[i] as int]);
    assert(candidates(logits, top_k, forced)[j] == all[o[j] as int]);
}

/// Whether logits were prepared for the choice of a speech token: a bias added to each, and the end
/// of speech set to minus infinity where it is barred.
pub open spec fn are_prepared_for_speech<T: Copy, F: Fn(Op, T, T, T) -> T>(
    logits: Seq<T>,
    bias: Seq<T>,
    end: u32,
    barred: bool,
    calc: Calc<T, F>,
    masked: T,
    biased: Seq<T>,
) -> bool {
    &&& calc.gives(Op::Single(0xff80_0000), calc.zero, calc.zero, calc.zero, masked)
    &&& biased.len() == logits.len()
    &&& forall|i: int|
        0 <= i < bias.len() && !(barred && i == end) ==> calc.gives(
            Op::Plus,
            logits[i],
            bias[i],
            calc.zero,
            #[trigger] biased[i],
        )
    &&& barred && end < bias.len() ==> biased[end as int] == masked
}

/// A speech token is chosen by its logits with a bias. Where the end of speech is barred, it has no
/// chance; where it is not, it is always a candidate.
pub proof fn speech_tokens_are_chosen_by_biased_logits<
    T: Copy,
    F: Fn(Op, T, T, T) -> T,
    B: Fn(T) -> u32,
    G: Fn(Relation, T, T) -> bool,
>(
    logits: Seq<T>,
    bias: Seq<T>,
    end: u32,
    barred: bool,
    params: SamplerParams,
    draw: u64,
    calc: Calc<T, F>,
    judge: Judge<B, G>,
    token: u32,
)
    requires
        is_speech_token(logits, bias, end, barred, params, draw, calc, judge, token),
        bias.len() == logits.len(),
    ensures
        exists|masked: T, biased: Seq<T>|
            {
                &&& #[trigger] are_prepared_for_speech(
                    logits,
                    bias,
                    end,
                    barred,
                    calc,
                    masked,
                    biased,
                )
                &&& barred ==> is_sampled(biased, params, None, draw, calc, judge, token)
                &&& !barred ==> is_sampled(biased, params, Some(end), draw, calc, judge, token)
            },
{
    let (masked, biased) = choose|masked: T, biased: Seq<T>|
        {
            &&& calc.gives(Op::Single(0xff80_0000), calc.zero, calc.zero, calc.zero, masked)
            &&& #[trigger] are_biased(logits, bias, barred, Some(end), masked, calc, biased)
            &&& is_sampled(
                biased,
                params,
                if barred {
                    None
                } else {
                    Some(end)
                },
                draw,
                calc,
                judge,
                token,
            )
        };
    if barred && end < bias.len() {
        let _ = biased[end as int];
    }
    assert(are_prepared_for_speech(logits, bias, end, barred, calc, masked, biased));
}

/// As many candidates are kept as the limit says, and all of them where it says nothing or more than
/// there are.
pub proof fn limits_keep_so_many(top_k: i32, count: nat)
    ensures
        0 < top_k && top_k <= count ==> candidate_limit(top_k, count) == top_k,
        top_k <= 0 || top_k > count ==> candidate_limit(top_k, count) == count,
{
}

/// Numbers are ordered by their bits: positive ones as these, negative ones the other way round, and
/// every negative one before every positive one.
pub proof fn bits_order_numbers(a: u32, b: u32)
    ensures
        a < b < 0x8000_0000 ==> place_of(a) < place_of(b),
        0x8000_0000 <= a < b ==> place_of(a) > place_of(b),
        a < 0x8000_0000 <= b ==> place_of(b) <= place_of(a),
        place_of(0) == place_of(0x8000_0000),
{
}

/// A logit is kept against the limit where it is a number above minus ten to the thirty.
pub proof fn all_but_masked_logits_are_worth_keeping(bits: u32)
    ensures
        bits <= 0x7f80_0000 ==> worth_keeping(bits),
        0x7f80_0000 < bits < 0x8000_0000 ==> !worth_keeping(bits),
        bits >= 0x8000_0000 ==> (worth_keeping(bits) <==> bits < 0xf149_f2ca),
{
}

} // verus!
