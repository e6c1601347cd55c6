//! Choosing a token by its logits, and generating with what was chosen.
use crate::attention::{fold_all, folded, map_with};
use crate::error::InferError;
use crate::numeric::{Calc, Op};
use crate::sampling::{
    apply_semantic_bias, are_biased, bias_error, can_judge, candidate_ids, candidates, is_nucleus,
    is_pick, kept_count, next_state, nucleus_size, pick_index, position_of, Judge, Relation,
    SamplerParams, SeededRng, fraction_of,
};
use vstd::prelude::*;
use vstd::slice::{slice_subrange, slice_to_vec};

verus! {

/// Whether these are the bits of the values.
pub open spec fn are_bits<T, B: Fn(T) -> u32, G>(
    values: Seq<T>,
    judge: Judge<B, G>,
    bits: Seq<u32>,
) -> bool {
    &&& bits.len() == values.len()
    &&& forall|i: int|
        0 <= i < values.len() ==> call_ensures(judge.bits, (values[i],), #[trigger] bits[i])
}

fn all_bits<T: Copy, B: Fn(T) -> u32, G: Fn(Relation, T, T) -> bool>(
    values: &[T],
    judge: &Judge<B, G>,
) -> (r: Vec<u32>)
    requires
        can_judge::<T, B, G>(*judge),
    ensures
        are_bits(values@, *judge, r@),
{
    let mut out: Vec<u32> = Vec::new();
    let mut i: usize = 0;
    while i < values.len()
        invariant
            i <= values@.len(),
            can_judge::<T, B, G>(*judge),
            out@.len() == i,
            forall|k: int|
                0 <= k < i ==> call_ensures(judge.bits, (values@[k],), #[trigger] out@[k]),
        decreases values@.len() - i,
    {
        let f = &judge.bits;
        let b: u32 = f(values[i]);
        out.push(b);
        i = i + 1;
    }
    out
}

/// The values at the given positions.
pub open spec fn values_at<T>(values: Seq<T>, ids: Seq<usize>) -> Seq<T> {
    Seq::new(ids.len(), |i: int| values[ids[i] as int])
}

fn pick_values<T: Copy>(values: &[T], ids: &Vec<usize>) -> (r: Vec<T>)
    requires
        forall|i: int| 0 <= i < ids@.len() ==> #[trigger] ids@[i] < values@.len(),
    ensures
        r@ == values_at(values@, ids@),
{
    let mut out: Vec<T> = Vec::new();
    let mut i: usize = 0;
    while i < ids.len()
        invariant
            i <= ids@.len(),
            forall|k: int| 0 <= k < ids@.len() ==> #[trigger] ids@[k] < values@.len(),
            out@.len() == i,
            forall|k: int| 0 <= k < i ==> #[trigger] out@[k] == values@[ids@[k] as int],
        decreases ids@.len() - i,
    {
        let at: usize = ids[i];
        out.push(values[at]);
        i = i + 1;
    }
    assert(out@ =~= values_at(values@, ids@));
    out
}

/// Whether every value was divided by the sum of all.
pub open spec fn are_shared<T: Copy, F: Fn(Op, T, T, T) -> T>(
    values: Seq<T>,
    calc: Calc<T, F>,
    out: Seq<T>,
) -> bool {
    &&& out.len() == values.len()
    &&& exists|totals: Seq<T>|
        {
            &&& #[trigger] folded(totals, values, calc.zero, Op::Plus, calc)
            &&& totals.len() == values.len() + 1
            &&& forall|i: int|
                0 <= i < values.len() ==> calc.gives(
                    Op::Share,
                    values[i],
                    totals.last(),
                    calc.zero,
                    #[trigger] out[i],
                )
        }
}

/// Shares out one among values.
pub fn share_out<T: Copy, F: Fn(Op, T, T, T) -> T>(values: &Vec<T>, calc: &Calc<T, F>) -> (r: Vec<T>)
    requires
        calc.works(),
    ensures
        are_shared(values@, *calc, r@),
{
    let total = fold_all(values, calc.zero, Op::Plus, calc);
    let out = map_with(values, total.0, Op::Share, calc);
    proof {
        let totals = total.1@;
        assert(folded(totals, values@, calc.zero, Op::Plus, *calc));
    }
    out
}

/// Whether every value was raised by its distance from the largest, at a temperature given by its
/// bits.
pub open spec fn are_raised<T: Copy, F: Fn(Op, T, T, T) -> T>(
    values: Seq<T>,
    temperature: u32,
    calc: Calc<T, F>,
    out: Seq<T>,
) -> bool {
    &&& out.len() == values.len()
    &&& exists|lowest: T, maxes: Seq<T>|
        {
            &&& calc.gives(
                Op::Single(0xff80_0000),
                calc.zero,
                calc.zero,
                calc.zero,
                lowest,
            )
            &&& #[trigger] folded(maxes, values, lowest, Op::Larger, calc)
            &&& maxes.len() == values.len() + 1
            &&& forall|i: int|
                0 <= i < values.len() ==> calc.gives(
                    Op::Temper(temperature),
                    values[i],
                    maxes.last(),
                    calc.zero,
                    #[trigger] out[i],
                )
        }
}

/// Whether these are the probabilities of logits at a temperature.
pub open spec fn are_probabilities<T: Copy, F: Fn(Op, T, T, T) -> T>(
    values: Seq<T>,
    temperature: u32,
    calc: Calc<T, F>,
    out: Seq<T>,
) -> bool {
    exists|raised: Seq<T>|
        #[trigger] are_raised(values, temperature, calc, raised) && are_shared(raised, calc, out)
}

/// The probabilities of logits at a temperature.
pub fn apply_softmax<T: Copy, F: Fn(Op, T, T, T) -> T>(
    values: &Vec<T>,
    temperature: u32,
    calc: &Calc<T, F>,
) -> (r: Vec<T>)
    requires
        calc.works(),
    ensures
        are_probabilities(values@, temperature, *calc, r@),
        r@.len() == values@.len(),
{
    let lowest: T = calc.constant(Op::Single(0xff80_0000));
    let largest = fold_all(values, lowest, Op::Larger, calc);
    let raised = map_with(values, largest.0, Op::Temper(temperature), calc);
    proof {
        let maxes = largest.1@;
        assert(folded(maxes, values@, lowest, Op::Larger, *calc));
        assert(are_raised(values@, temperature, *calc, raised@));
    }
    share_out(&raised, calc)
}

/// Whether this is the first position of a forced identifier among candidates, if it has one.
pub open spec fn is_place(ids: Seq<usize>, forced: Option<u32>, place: Option<usize>) -> bool {
    match place {
        Some(p) => forced is Some && p < ids.len() && ids[p as int] == forced->0 && forall|j: int|
            0 <= j < p ==> #[trigger] ids[j] != forced->0,
        None => forced is None || forall|j: int|
            0 <= j < ids.len() ==> #[trigger] ids[j] != forced->0,
    }
}

/// How many candidates stay: those of the nucleus, one at least, and all up to the forced one.
pub open spec fn kept_of(nucleus: int, place: Option<usize>) -> int {
    let least = if nucleus == 0 {
        1
    } else {
        nucleus
    };
    match place {
        Some(p) if p >= least => p + 1,
        _ => least,
    }
}

/// Whether a token was chosen among candidates by a random number: those of the nucleus and all up
/// to the forced one share out one anew, and the number falls into the part of the token.
pub open spec fn is_chosen<
    T: Copy,
    F: Fn(Op, T, T, T) -> T,
    B: Fn(T) -> u32,
    G: Fn(Relation, T, T) -> bool,
>(
    logits: Seq<T>,
    ids: Seq<usize>,
    params: SamplerParams,
    forced: Option<u32>,
    draw: u64,
    calc: Calc<T, F>,
    judge: Judge<B, G>,
    choice: int,
) -> bool {
    exists|
        probs: Seq<T>,
        limit: T,
        nucleus: int,
        place: Option<usize>,
        shares: Seq<T>,
        target: T,
    |
        {
            &&& #[trigger] are_probabilities(
                values_at(logits, ids),
                params.temperature,
                calc,
                probs,
            )
            &&& calc.gives(
                Op::Single(params.top_p),
                calc.zero,
                calc.zero,
                calc.zero,
                limit,
            )
            &&& #[trigger] is_nucleus(probs, limit, calc, judge, nucleus)
            &&& #[trigger] is_place(ids, forced, place)
            &&& are_shared(probs.take(kept_of(nucleus, place)), calc, shares)
            &&& calc.gives(Op::Draw(draw), calc.zero, calc.zero, calc.zero, target)
            &&& #[trigger] is_pick(shares, target, calc, judge, choice)
        }
}

/// Whether a token was chosen by its logits: among as many of the largest as allowed, and the
/// forced one.
pub open spec fn is_sampled<
    T: Copy,
    F: Fn(Op, T, T, T) -> T,
    B: Fn(T) -> u32,
    G: Fn(Relation, T, T) -> bool,
>(
    logits: Seq<T>,
    params: SamplerParams,
    forced: Option<u32>,
    draw: u64,
    calc: Calc<T, F>,
    judge: Judge<B, G>,
    token: u32,
) -> bool {
    if logits.len() == 0 {
        token == 0
    } else {
        exists|bits: Seq<u32>, choice: int|
            {
                &&& #[trigger] are_bits(logits, judge, bits)
                &&& 0 <= choice < candidates(bits, params.top_k, forced).len()
                &&& #[trigger] is_chosen(
                    logits,
                    candidates(bits, params.top_k, forced),
                    params,
                    forced,
                    draw,
                    calc,
                    judge,
                    choice,
                )
                &&& token == candidates(bits, params.top_k, forced)[choice] as u32
            }
    }
}

/// The state of a source of random numbers after a choice: none is drawn where there is nothing to
/// choose from.
pub open spec fn state_after(count: nat, state: u64) -> u64 {
    if count == 0 {
        state
    } else {
        next_state(state)
    }
}

/// Chooses a token by its logits and a random number, in units of two to the minus 53, from any
/// source.
pub fn sample_token_by_draw<
    T: Copy,
    F: Fn(Op, T, T, T) -> T,
    B: Fn(T) -> u32,
    G: Fn(Relation, T, T) -> bool,
>(
    logits: &[T],
    params: &SamplerParams,
    always_include_id: Option<u32>,
    draw: u64,
    calc: &Calc<T, F>,
    judge: &Judge<B, G>,
) -> (r: u32)
    requires
        calc.works(),
        can_judge::<T, B, G>(*judge),
    ensures
        is_sampled(
            logits@,
            *params,
            always_include_id,
            draw,
            *calc,
            *judge,
            r,
        ),
{
    if logits.len() == 0 {
        return 0;
    }
    let bits = all_bits(logits, judge);
    let ids = candidate_ids(&bits, params.top_k, always_include_id);
    let values = pick_values(logits, &ids);
    let probs = apply_softmax(&values, params.temperature, calc);
    let place: Option<usize> = match always_include_id {
        None => None,
        Some(id) => position_of(&ids, id),
    };
    let limit: T = calc.constant(Op::Single(params.top_p));
    let nucleus: usize = nucleus_size(probs.as_slice(), limit, calc, judge);
    let kept: usize = kept_count(nucleus, place);
    assert(kept as int == kept_of(nucleus as int, place));
    let first = slice_to_vec(slice_subrange(probs.as_slice(), 0, kept));
    assert(first@ =~= probs@.take(kept as int));
    let shares = share_out(&first, calc);
    let target: T = calc.constant(Op::Draw(draw));
    let picked = pick_index(shares.as_slice(), target, calc, judge);
    let choice: usize = match picked {
        Ok(p) => p,
        Err(_) => {
            assert(false);
            0
        },
    };
    proof {
        assert(are_probabilities(
            values_at(logits@, ids@),
            params.temperature,
            *calc,
            probs@,
        ));
        assert(is_nucleus(probs@, limit, *calc, *judge, nucleus as int));
        assert(is_place(ids@, always_include_id, place));
        assert(is_pick(shares@, target, *calc, *judge, choice as int));
        assert(is_chosen(
            logits@,
            ids@,
            *params,
            always_include_id,
            draw,
            *calc,
            *judge,
            choice as int,
        ));
        assert(are_bits(logits@, *judge, bits@));
    }
    let token: u32 = #[verifier::truncate] (ids[choice] as u32);
    token
}

/// Chooses a token by its logits.
pub fn sample_token<
    T: Copy,
    F: Fn(Op, T, T, T) -> T,
    B: Fn(T) -> u32,
    G: Fn(Relation, T, T) -> bool,
>(
    logits: &[T],
    params: &SamplerParams,
    always_include_id: Option<u32>,
    rng: &mut SeededRng,
    calc: &Calc<T, F>,
    judge: &Judge<B, G>,
) -> (r: u32)
    requires
        calc.works(),
        can_judge::<T, B, G>(*judge),
    ensures
        final(rng).state == state_after(logits@.len(), old(rng).state),
        is_sampled(
            logits@,
            *params,
            always_include_id,
            fraction_of(next_state(old(rng).state)),
            *calc,
            *judge,
            r,
        ),
{
    if logits.len() == 0 {
        return 0;
    }
    let draw: u64 = rng.next_fraction();
    sample_token_by_draw(logits, params, always_include_id, draw, calc, judge)
}

/// Whether a speech token was chosen by its logits: a bias was added, the end of speech was masked
/// where it is barred, and is a candidate in any case where it is not.
pub open spec fn is_speech_token<
    T: Copy,
    F: Fn(Op, T, T, T) -> T,
    B: Fn(T) -> u32,
    G: Fn(Relation, T, T) -> bool,
>(
    logits: Seq<T>,
    bias: Seq<T>,
    im_end_id: u32,
    barred: bool,
    params: SamplerParams,
    draw: u64,
    calc: Calc<T, F>,
    judge: Judge<B, G>,
    token: u32,
) -> bool {
    exists|masked: T, biased: Seq<T>|
        {
            &&& calc.gives(
                Op::Single(0xff80_0000),
                calc.zero,
                calc.zero,
                calc.zero,
                masked,
            )
            &&& #[trigger] are_biased(
                logits,
                bias,
                barred,
                Some(im_end_id),
                masked,
                calc,
                biased,
            )
            &&& is_sampled(
                biased,
                params,
                if barred {
                    None
                } else {
                    Some(im_end_id)
                },
                draw,
                calc,
                judge,
                token,
            )
        }
}

/// Chooses a speech token by its logits.
pub fn sample_semantic_token<
    T: Copy,
    F: Fn(Op, T, T, T) -> T,
    B: Fn(T) -> u32,
    G: Fn(Relation, T, T) -> bool,
>(
    logits: &[T],
    bias: &[T],
    im_end_id: u32,
    block_im_end: bool,
    params: &SamplerParams,
    rng: &mut SeededRng,
    calc: &Calc<T, F>,
    judge: &Judge<B, G>,
) -> (r: Result<u32, InferError>)
    requires
        calc.works(),
        can_judge::<T, B, G>(*judge),
    ensures
        match r {
            Ok(token) => {
                &&& bias_error(logits@.len(), bias@.len()) is None
                &&& final(rng).state == state_after(logits@.len(), old(rng).state)
                &&& is_speech_token(
                    logits@,
                    bias@,
                    im_end_id,
                    block_im_end,
                    *params,
                    fraction_of(next_state(old(rng).state)),
                    *calc,
                    *judge,
                    token,
                )
            },
            Err(e) => bias_error(logits@.len(), bias@.len()) == Some(e@) && *final(rng) == *old(
                rng,
            ),
        },
{
    let masked: T = calc.constant(Op::Single(0xff80_0000));
    let mut biased = slice_to_vec(logits);
    match apply_semantic_bias(&mut biased, bias, block_im_end, Some(im_end_id), masked, calc) {
        Err(e) => {
            return Err(e);
        },
        Ok(_) => {},
    }
    let forced: Option<u32> = if block_im_end {
        None
    } else {
        Some(im_end_id)
    };
    assert(are_biased(
        logits@,
        bias@,
        block_im_end,
        Some(im_end_id),
        masked,
        *calc,
        biased@,
    ));
    Ok(sample_token(biased.as_slice(), params, forced, rng, calc, judge))
}

} // verus!
