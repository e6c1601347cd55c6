//! Choosing the next token among candidates.
use crate::attention::{folded, lemma_fold_one};
use crate::error::{message, ErrorView, InferError};
use crate::generate::SEVEN_TENTHS_BITS;
use crate::numeric::{Calc, Op};
use crate::order::{all_within, compares, is_order_of, listed, order_of, stable_order};
use crate::text::{dec, dec_usize};
use vstd::prelude::*;
use vstd::string::*;

verus! {

/// How to choose. Floating-point numbers are kept as their bits.
#[derive(Debug, Clone, Copy, PartialEq, Eq, Structural)]
pub struct SamplerParams {
    pub temperature: u32,
    pub top_p: u32,
    pub top_k: i32,
}

impl Default for SamplerParams {
    fn default() -> (r: SamplerParams)
        ensures
            r == (SamplerParams {
                temperature: SEVEN_TENTHS_BITS,
                top_p: SEVEN_TENTHS_BITS,
                top_k: 30,
            }),
    {
        SamplerParams { temperature: SEVEN_TENTHS_BITS, top_p: SEVEN_TENTHS_BITS, top_k: 30 }
    }
}

// ---------------------------------------------------------------------
// Random numbers
// ---------------------------------------------------------------------

/// A source of repeatable random numbers.
#[derive(Debug, Clone, Copy, PartialEq, Eq, Structural)]
pub struct SeededRng {
    pub state: u64,
}

/// The state that follows a state.
pub open spec fn next_state(state: u64) -> u64 {
    state.wrapping_mul(6364136223846793005).wrapping_add(1)
}

/// The number of 53 bits that a state gives; a unit has two to the 53 of them.
pub open spec fn fraction_of(state: u64) -> u64 {
    (state >> 11u64) & 0x1f_ffff_ffff_ffff
}

impl SeededRng {
    /// The source that starts from a seed.
    pub fn new(seed: u64) -> (r: SeededRng)
        ensures
            r.state == seed,
    {
        SeededRng { state: seed }
    }

    /// The next random number, in units of two to the minus 53.
    pub fn next_fraction(&mut self) -> (r: u64)
        ensures
            final(self).state == next_state(old(self).state),
            r == fraction_of(final(self).state),
            r < 0x20_0000_0000_0000,
    {
        self.state = self.state.wrapping_mul(6364136223846793005).wrapping_add(1);
        let state: u64 = self.state;
        assert((state >> 11u64) & 0x1f_ffff_ffff_ffff < 0x20_0000_0000_0000) by (bit_vector);
        (state >> 11) & 0x1f_ffff_ffff_ffff
    }
}

/// A random number leaves out no bit that was not dropped: it is the upper part of the state.
pub proof fn fraction_is_upper_part(state: u64)
    ensures
        fraction_of(state) == state / 2048,
{
    assert((state >> 11u64) & 0x1f_ffff_ffff_ffff == state / 2048) by (bit_vector);
}

// ---------------------------------------------------------------------
// Masks
// ---------------------------------------------------------------------

/// Whether an identifier may be generated: a semantic token, or the end of speech.
pub open spec fn allowed(id: u32, sem_begin: u32, sem_end: u32, im_end_id: Option<u32>) -> bool {
    sem_begin <= id <= sem_end || im_end_id == Some(id)
}

/// Whether a bias is `zero` for each identifier that may be generated, and `masked` elsewhere.
pub open spec fn is_semantic_bias<T>(
    bias: Seq<T>,
    sem_begin: u32,
    sem_end: u32,
    im_end_id: Option<u32>,
    zero: T,
    masked: T,
) -> bool {
    forall|i: int|
        0 <= i < bias.len() ==> #[trigger] bias[i] == (if i <= u32::MAX && allowed(
            i as u32,
            sem_begin,
            sem_end,
            im_end_id,
        ) {
            zero
        } else {
            masked
        })
}

/// The bias of every identifier: `zero` where it may be generated, `masked` elsewhere.
pub fn build_semantic_bias<T: Copy>(
    vocab_size: usize,
    sem_begin: u32,
    sem_end: u32,
    im_end_id: Option<u32>,
    zero: T,
    masked: T,
) -> (r: Vec<T>)
    ensures
        r@.len() == vocab_size,
        is_semantic_bias(r@, sem_begin, sem_end, im_end_id, zero, masked),
{
    let mut bias: Vec<T> = Vec::new();
    let mut i: usize = 0;
    while i < vocab_size
        invariant
            i <= vocab_size,
            bias@.len() == i,
            forall|k: int|
                0 <= k < i ==> #[trigger] bias@[k] == (if k <= u32::MAX && allowed(
                    k as u32,
                    sem_begin,
                    sem_end,
                    im_end_id,
                ) {
                    zero
                } else {
                    masked
                }),
        decreases vocab_size - i,
    {
        let known = i as u64 <= u32::MAX as u64;
        let id: u32 = if known {
            i as u32
        } else {
            0
        };
        let ends = match im_end_id {
            Some(e) => e == id,
            None => false,
        };
        if known && ((sem_begin <= id && id <= sem_end) || ends) {
            bias.push(zero);
        } else {
            bias.push(masked);
        }
        i = i + 1;
    }
    bias
}

/// What is wrong with a bias, if anything.
pub open spec fn bias_error(logits: nat, bias: nat) -> Option<ErrorView> {
    if logits != bias {
        Some(
            message(
                "semantic bias length mismatch: logits="@ + dec(logits) + " bias="@ + dec(bias),
            ),
        )
    } else {
        None
    }
}

/// Whether the end of speech is barred at this position.
pub open spec fn barred(i: int, block_im_end: bool, im_end_id: Option<u32>) -> bool {
    block_im_end && im_end_id is Some && i == im_end_id->0
}

/// Whether a bias was added to every logit, and the end of speech masked where it is barred.
pub open spec fn are_biased<T: Copy, F: Fn(Op, T, T, T) -> T>(
    logits: Seq<T>,
    bias: Seq<T>,
    block_im_end: bool,
    im_end_id: Option<u32>,
    masked: T,
    calc: Calc<T, F>,
    out: Seq<T>,
) -> bool {
    &&& out.len() == logits.len()
    &&& forall|i: int|
        0 <= i < bias.len() ==> if barred(i, block_im_end, im_end_id) {
            #[trigger] out[i] == masked
        } else {
            calc.gives(Op::Plus, logits[i], bias[i], calc.zero, out[i])
        }
}

/// Adds a bias to every logit, and masks the end of speech where it is barred.
pub fn apply_semantic_bias<T: Copy, F: Fn(Op, T, T, T) -> T>(
    logits: &mut Vec<T>,
    bias: &[T],
    block_im_end: bool,
    im_end_id: Option<u32>,
    masked: T,
    calc: &Calc<T, F>,
) -> (r: Result<(), InferError>)
    requires
        calc.works(),
    ensures
        final(logits)@.len() == old(logits)@.len(),
        match r {
            Ok(_) => bias_error(old(logits)@.len(), bias@.len()) is None && are_biased(
                old(logits)@,
                bias@,
                block_im_end,
                im_end_id,
                masked,
                *calc,
                final(logits)@,
            ),
            Err(e) => bias_error(old(logits)@.len(), bias@.len()) == Some(e@) && final(logits)@
                == old(logits)@,
        },
{
    if logits.len() != bias.len() {
        let a = dec_usize(logits.len());
        let b = dec_usize(bias.len());
        return Err(
            InferError::Message(
                String::from_str("semantic bias length mismatch: logits=").concat(
                    a.as_str(),
                ).concat(" bias=").concat(b.as_str()),
            ),
        );
    }
    let ghost before = logits@;
    let mut i: usize = 0;
    while i < bias.len()
        invariant
            i <= bias@.len(),
            logits@.len() == bias@.len(),
            before.len() == bias@.len(),
            calc.works(),
            forall|k: int|
                0 <= k < i ==> calc.gives(
                    Op::Plus,
                    before[k],
                    bias@[k],
                    calc.zero,
                    #[trigger] logits@[k],
                ),
            forall|k: int| i <= k < bias@.len() ==> #[trigger] logits@[k] == before[k],
        decreases bias@.len() - i,
    {
        let v: T = calc.two(Op::Plus, logits[i], bias[i]);
        logits.set(i, v);
        i = i + 1;
    }
    if block_im_end {
        if let Some(id) = im_end_id {
            if (id as u64) < logits.len() as u64 {
                logits.set(id as usize, masked);
            }
        }
    }
    Ok(())
}

/// Whether every logit that may not be generated is masked, and the others are as they were.
pub open spec fn are_masked<T>(
    before: Seq<T>,
    sem_begin: u32,
    sem_end: u32,
    im_end_id: Option<u32>,
    block_im_end: bool,
    masked: T,
    after: Seq<T>,
) -> bool {
    &&& after.len() == before.len()
    &&& forall|i: int|
        0 <= i < before.len() ==> #[trigger] after[i] == (if (sem_begin <= i as u32 <= sem_end) || (
        im_end_id == Some(i as u32) && !block_im_end) {
            before[i]
        } else {
            masked
        })
}

/// Whether a logit is finite, as far as sums tell: it stays what it is where `zero` is added to it,
/// and `masked`, which is minus infinity, swallows it.
pub open spec fn is_finite<T: Copy, F: Fn(Op, T, T, T) -> T>(
    x: T,
    zero: T,
    masked: T,
    calc: Calc<T, F>,
) -> bool {
    &&& forall|y: T| #[trigger] calc.gives(Op::Plus, x, zero, calc.zero, y) ==> y == x
    &&& forall|y: T| #[trigger] calc.gives(Op::Plus, x, masked, calc.zero, y) ==> y == masked
}

/// Adding a bias and masking come to the same. Where all logits are finite, the bias keeps those
/// that may be generated, but for an end of speech that is barred, and masks the others. Where the
/// end of speech is no speech token, this is what masking leaves.
pub proof fn bias_and_mask_agree<T: Copy, F: Fn(Op, T, T, T) -> T>(
    before: Seq<T>,
    bias: Seq<T>,
    sem_begin: u32,
    sem_end: u32,
    im_end_id: Option<u32>,
    block_im_end: bool,
    zero: T,
    masked: T,
    calc: Calc<T, F>,
    biased: Seq<T>,
    kept: Seq<T>,
)
    requires
        before.len() <= u32::MAX,
        bias.len() == before.len(),
        is_semantic_bias(bias, sem_begin, sem_end, im_end_id, zero, masked),
        forall|i: int|
            0 <= i < before.len() ==> is_finite(#[trigger] before[i], zero, masked, calc),
        are_biased(before, bias, block_im_end, im_end_id, masked, calc, biased),
        are_masked(before, sem_begin, sem_end, im_end_id, block_im_end, masked, kept),
    ensures
        bias_error(before.len(), bias.len()) is None,
        biased.len() == before.len(),
        forall|i: int|
            0 <= i < before.len() ==> #[trigger] biased[i] == (if allowed(
                i as u32,
                sem_begin,
                sem_end,
                im_end_id,
            ) && !(block_im_end && im_end_id == Some(i as u32)) {
                before[i]
            } else {
                masked
            }),
        !(im_end_id matches Some(e) && sem_begin <= e <= sem_end) ==> biased == kept,
{
    assert forall|i: int| 0 <= i < before.len() implies #[trigger] biased[i] == (if allowed(
        i as u32,
        sem_begin,
        sem_end,
        im_end_id,
    ) && !(block_im_end && im_end_id == Some(i as u32)) {
        before[i]
    } else {
        masked
    }) by {
        assert(bias[i] == zero || bias[i] == masked);
        assert(is_finite(before[i], zero, masked, calc));
    }
    if !(im_end_id matches Some(e) && sem_begin <= e <= sem_end) {
        assert(biased =~= kept);
    }
}

/// Masks every logit that may not be generated; the others stay as they are.
pub fn semantic_mask_logits<T: Copy>(
    logits: &mut Vec<T>,
    sem_begin: u32,
    sem_end: u32,
    im_end_id: Option<u32>,
    block_im_end: bool,
    masked: T,
)
    ensures
        are_masked(
            old(logits)@,
            sem_begin,
            sem_end,
            im_end_id,
            block_im_end,
            masked,
            final(logits)@,
        ),
{
    let ghost before = logits@;
    let count: usize = logits.len();
    let mut i: usize = 0;
    while i < count
        invariant
            i <= count,
            count == before.len(),
            logits@.len() == count,
            forall|k: int|
                0 <= k < i ==> #[trigger] logits@[k] == (if (sem_begin <= k as u32 <= sem_end) || (
                im_end_id == Some(k as u32) && !block_im_end) {
                    before[k]
                } else {
                    masked
                }),
            forall|k: int| i <= k < count ==> #[trigger] logits@[k] == before[k],
        decreases count - i,
    {
        let id: u32 = #[verifier::truncate] (i as u32);
        let in_semantic = id >= sem_begin && id <= sem_end;
        let is_end = match im_end_id {
            Some(e) => e == id,
            None => false,
        };
        if !in_semantic && !(is_end && !block_im_end) {
            logits.set(i, masked);
        }
        i = i + 1;
    }
}

// ---------------------------------------------------------------------
// Candidates
// ---------------------------------------------------------------------

/// The place of a single-precision number, given by its bits, among all such numbers. The two
/// zeros share one place. Bits that stand for no number have a place beyond all numbers, on the side
/// of their sign.
pub open spec fn place_of(bits: u32) -> int {
    if bits < 0x8000_0000 {
        bits as int
    } else {
        -(bits - 0x8000_0000)
    }
}

/// Whether a logit is a number, and large enough to be kept against the limit on candidates.
pub open spec fn worth_keeping(bits: u32) -> bool {
    -0x7149_f2ca < place_of(bits) <= 0x7f80_0000
}

/// The order of logits, the larger one first.
pub open spec fn larger_first() -> spec_fn(u32, u32) -> bool {
    |a: u32, b: u32| place_of(a) >= place_of(b)
}

/// How many candidates are kept; zero or less keeps all.
pub open spec fn candidate_limit(top_k: i32, count: nat) -> nat {
    if 0 < top_k < count {
        top_k as nat
    } else {
        count
    }
}

/// The identifiers with the largest logits, the largest first and equal ones in their order.
pub open spec fn best_ids(logits: Seq<u32>, top_k: i32) -> Seq<usize> {
    order_of(logits, larger_first()).take(candidate_limit(top_k, logits.len()) as int)
}

/// Whether an identifier is added to the candidates: it is one, it was cut off, and its logit is
/// worth keeping.
pub open spec fn is_added(logits: Seq<u32>, top_k: i32, forced: Option<u32>) -> bool {
    &&& forced is Some
    &&& forced->0 < logits.len()
    &&& worth_keeping(logits[forced->0 as int])
    &&& !best_ids(logits, top_k).contains(forced->0 as usize)
}

/// The logits of candidates.
pub open spec fn logits_of(logits: Seq<u32>, ids: Seq<usize>) -> Seq<u32> {
    ids.map_values(|i: usize| logits[i as int])
}

/// The candidates, the largest logit first.
pub open spec fn candidates(logits: Seq<u32>, top_k: i32, forced: Option<u32>) -> Seq<usize> {
    let best = best_ids(logits, top_k);
    let all = if is_added(logits, top_k, forced) {
        best.push(forced->0 as usize)
    } else {
        best
    };
    listed(all, order_of(logits_of(logits, all), larger_first()))
}

proof fn lemma_places_compare()
    ensures
        compares(larger_first()),
{
}

fn place(bits: u32) -> (r: i64)
    ensures
        r == place_of(bits),
{
    if bits < 0x8000_0000 {
        bits as i64
    } else {
        -((bits - 0x8000_0000) as i64)
    }
}

fn larger_order(keys: &Vec<u32>) -> (r: Vec<usize>)
    ensures
        r@ == order_of(keys@, larger_first()),
        is_order_of(r@, keys@, larger_first()),
{
    proof {
        lemma_places_compare();
    }
    let ghost rel = larger_first();
    let le = |a: &u32, b: &u32| -> (v: bool)
        ensures
            v == (place_of(*a) >= place_of(*b)),
    { place(*a) >= place(*b) };
    stable_order(keys, le, Ghost(rel))
}

/// The candidates for the next token, the largest logit first: as many as allowed, and the forced
/// one where its logit is worth keeping.
pub fn candidate_ids(logits: &Vec<u32>, top_k: i32, forced: Option<u32>) -> (r: Vec<usize>)
    ensures
        r@ == candidates(logits@, top_k, forced),
        forall|i: int| 0 <= i < r@.len() ==> #[trigger] r@[i] < logits@.len(),
        logits@.len() > 0 ==> r@.len() > 0,
{
    let count: usize = logits.len();
    let mut best = larger_order(logits);
    let limit: usize = if top_k > 0 && (top_k as u64) < count as u64 {
        top_k as usize
    } else {
        count
    };
    best.truncate(limit);
    assert(best@ =~= best_ids(logits@, top_k));
    let mut there: bool = false;
    if let Some(id) = forced {
        if (id as u64) < count as u64 {
            let at: usize = id as usize;
            let mut i: usize = 0;
            while i < best.len()
                invariant
                    i <= best@.len(),
                    there <==> exists|k: int| 0 <= k < i && #[trigger] best@[k] == at,
                decreases best@.len() - i,
            {
                if best[i] == at {
                    there = true;
                }
                i = i + 1;
            }
            assert(there == best@.contains(at));
            let found: i64 = place(logits[at]);
            if found > -0x7149_f2ca && found <= 0x7f80_0000 && !there {
                best.push(at);
            }
        }
    }
    let ghost all = best@;
    let mut kept: Vec<u32> = Vec::new();
    let mut i: usize = 0;
    while i < best.len()
        invariant
            i <= best@.len(),
            all == best@,
            forall|k: int| 0 <= k < best@.len() ==> #[trigger] best@[k] < logits@.len(),
            kept@ == logits_of(logits@, all).take(i as int),
        decreases best@.len() - i,
    {
        let v: u32 = logits[best[i]];
        kept.push(v);
        assert(logits_of(logits@, all).take(i as int + 1) =~= logits_of(logits@, all).take(
            i as int,
        ).push(v));
        i = i + 1;
    }
    assert(kept@ =~= logits_of(logits@, all));
    let order = larger_order(&kept);
    let mut out: Vec<usize> = Vec::new();
    let ghost want = listed(all, order@);
    let mut i: usize = 0;
    while i < order.len()
        invariant
            i <= order@.len(),
            order@.len() == best@.len(),
            all_within(order@, 0, best@.len() as int),
            all == best@,
            want == listed(all, order@),
            forall|k: int| 0 <= k < best@.len() ==> #[trigger] best@[k] < logits@.len(),
            out@ == want.take(i as int),
        decreases order@.len() - i,
    {
        let v: usize = best[order[i]];
        out.push(v);
        assert(want.take(i as int + 1) =~= want.take(i as int).push(v));
        i = i + 1;
    }
    assert(want.take(i as int) =~= want);
    assert forall|k: int| 0 <= k < out@.len() implies #[trigger] out@[k] < logits@.len() by {
        assert(out@[k] == all[order@[k] as int]);
    }
    out
}

/// The position of an identifier among candidates.
pub fn position_of(ids: &Vec<usize>, id: u32) -> (r: Option<usize>)
    ensures
        match r {
            Some(p) => p < ids@.len() && ids@[p as int] == id && forall|j: int|
                0 <= j < p ==> #[trigger] ids@[j] != id,
            None => forall|j: int| 0 <= j < ids@.len() ==> #[trigger] ids@[j] != id,
        },
{
    let mut i: usize = 0;
    while i < ids.len()
        invariant
            i <= ids@.len(),
            forall|j: int| 0 <= j < i ==> #[trigger] ids@[j] != id,
        decreases ids@.len() - i,
    {
        if ids[i] as u64 == id as u64 {
            return Some(i);
        }
        i = i + 1;
    }
    None
}

// ---------------------------------------------------------------------
// Cumulative choice
// ---------------------------------------------------------------------

/// How two values are compared.
#[derive(Debug, Clone, Copy, PartialEq, Eq, Structural)]
pub enum Relation {
    /// The first value is the second or more.
    AtLeast,
    /// The first value is less than the second.
    Below,
}

/// What reads the bits of values and compares them.
pub struct Judge<B, G> {
    pub bits: B,
    pub holds: G,
}

/// Whether the bits of every value can be read, and any two values compared.
pub open spec fn can_judge<T, B: Fn(T) -> u32, G: Fn(Relation, T, T) -> bool>(
    judge: Judge<B, G>,
) -> bool {
    &&& forall|a: T| call_requires(judge.bits, (a,))
    &&& forall|o: Relation, a: T, b: T| call_requires(judge.holds, (o, a, b))
}

/// Whether a comparison may have this outcome.
pub open spec fn judged<T, B: Fn(T) -> u32, G: Fn(Relation, T, T) -> bool>(
    judge: Judge<B, G>,
    o: Relation,
    a: T,
    b: T,
    v: bool,
) -> bool {
    call_ensures(judge.holds, (o, a, b), v)
}

fn compare<T, B: Fn(T) -> u32, G: Fn(Relation, T, T) -> bool>(
    judge: &Judge<B, G>,
    o: Relation,
    a: T,
    b: T,
) -> (v: bool)
    requires
        can_judge::<T, B, G>(*judge),
    ensures
        judged(*judge, o, a, b, v),
{
    let f = &judge.holds;
    f(o, a, b)
}

/// Whether it takes this many leading items until their running total reaches the limit; all of
/// them where it never does.
pub open spec fn is_nucleus<
    T: Copy,
    F: Fn(Op, T, T, T) -> T,
    B: Fn(T) -> u32,
    G: Fn(Relation, T, T) -> bool,
>(probs: Seq<T>, limit: T, calc: Calc<T, F>, judge: Judge<B, G>, r: int) -> bool {
    &&& r <= probs.len()
    &&& probs.len() > 0 ==> r > 0
    &&& exists|totals: Seq<T>|
        {
            &&& #[trigger] folded(totals, probs, calc.zero, Op::Plus, calc)
            &&& totals.len() == r + 1
            &&& forall|i: int|
                0 < i < r ==> judged(judge, Relation::AtLeast, #[trigger] totals[i], limit, false)
            &&& r < probs.len() ==> judged(judge, Relation::AtLeast, totals[r], limit, true)
        }
}

/// How many leading items it takes until their running total reaches the limit; all of them where
/// it never does.
pub fn nucleus_size<
    T: Copy,
    F: Fn(Op, T, T, T) -> T,
    B: Fn(T) -> u32,
    G: Fn(Relation, T, T) -> bool,
>(probs: &[T], limit: T, calc: &Calc<T, F>, judge: &Judge<B, G>) -> (r: usize)
    requires
        calc.works(),
        can_judge::<T, B, G>(*judge),
    ensures
        is_nucleus(probs@, limit, *calc, *judge, r as int),
{
    let mut total: T = calc.zero;
    let ghost mut totals: Seq<T> = seq![calc.zero];
    let mut i: usize = 0;
    while i < probs.len()
        invariant
            i <= probs@.len(),
            calc.works(),
            can_judge::<T, B, G>(*judge),
            totals.len() == i + 1,
            totals.last() == total,
            folded(totals, probs@, calc.zero, Op::Plus, *calc),
            forall|k: int|
                0 < k <= i ==> judged(
                    *judge,
                    Relation::AtLeast,
                    #[trigger] totals[k],
                    limit,
                    false,
                ),
        decreases probs@.len() - i,
    {
        let next: T = calc.two(Op::Plus, total, probs[i]);
        let ghost before = totals;
        proof {
            lemma_fold_one(totals, probs@, calc.zero, Op::Plus, *calc, next);
            totals = totals.push(next);
            assert forall|k: int| 0 < k <= i implies judged(
                *judge,
                Relation::AtLeast,
                #[trigger] totals[k],
                limit,
                false,
            ) by {
                assert(totals[k] == before[k]);
            }
        }
        total = next;
        i = i + 1;
        let enough: bool = compare(judge, Relation::AtLeast, total, limit);
        if enough {
            assert(folded(totals, probs@, calc.zero, Op::Plus, *calc));
            return i;
        }
        assert(totals[i as int] == total);
    }
    assert(folded(totals, probs@, calc.zero, Op::Plus, *calc));
    i
}

/// How many candidates stay: the nucleus, and all up to the forced one.
pub fn kept_count(nucleus: usize, forced: Option<usize>) -> (r: usize)
    requires
        forced matches Some(p) ==> p < usize::MAX,
    ensures
        r == (match forced {
            Some(p) if p >= (if nucleus == 0 {
                1
            } else {
                nucleus
            }) => (p + 1) as usize,
            _ => if nucleus == 0 {
                1
            } else {
                nucleus
            },
        }),
{
    let least: usize = if nucleus == 0 {
        1
    } else {
        nucleus
    };
    match forced {
        Some(p) => if p >= least {
            p + 1
        } else {
            least
        },
        None => least,
    }
}

/// Whether this is the first position at which the running total exceeds the target, or the last
/// one where it never does.
pub open spec fn is_pick<
    T: Copy,
    F: Fn(Op, T, T, T) -> T,
    B: Fn(T) -> u32,
    G: Fn(Relation, T, T) -> bool,
>(probs: Seq<T>, target: T, calc: Calc<T, F>, judge: Judge<B, G>, p: int) -> bool {
    &&& 0 <= p < probs.len()
    &&& exists|totals: Seq<T>|
        {
            &&& #[trigger] folded(totals, probs, calc.zero, Op::Plus, calc)
            &&& totals.len() == p + 2
            &&& forall|i: int|
                0 < i <= p ==> judged(judge, Relation::Below, target, #[trigger] totals[i], false)
            &&& p < probs.len() - 1 ==> judged(
                judge,
                Relation::Below,
                target,
                totals[p + 1],
                true,
            )
        }
}

/// The first position at which the running total exceeds the target; the last one where it never
/// does.
pub fn pick_index<
    T: Copy,
    F: Fn(Op, T, T, T) -> T,
    B: Fn(T) -> u32,
    G: Fn(Relation, T, T) -> bool,
>(probs: &[T], target: T, calc: &Calc<T, F>, judge: &Judge<B, G>) -> (r: Result<usize, InferError>)
    requires
        calc.works(),
        can_judge::<T, B, G>(*judge),
    ensures
        match r {
            Err(e) => probs@.len() == 0 && e@ == message("empty probability vector"@),
            Ok(p) => is_pick(probs@, target, *calc, *judge, p as int),
        },
{
    if probs.len() == 0 {
        return Err(InferError::text("empty probability vector"));
    }
    let mut total: T = calc.zero;
    let ghost mut totals: Seq<T> = seq![calc.zero];
    let mut i: usize = 0;
    loop
        invariant
            i < probs@.len(),
            calc.works(),
            can_judge::<T, B, G>(*judge),
            totals.len() == i + 1,
            totals.last() == total,
            folded(totals, probs@, calc.zero, Op::Plus, *calc),
            forall|k: int|
                0 < k <= i ==> judged(
                    *judge,
                    Relation::Below,
                    target,
                    #[trigger] totals[k],
                    false,
                ),
        decreases probs@.len() - i,
    {
        let next: T = calc.two(Op::Plus, total, probs[i]);
        let ghost before = totals;
        proof {
            lemma_fold_one(totals, probs@, calc.zero, Op::Plus, *calc, next);
            totals = totals.push(next);
            assert forall|k: int| 0 < k <= i implies judged(
                *judge,
                Relation::Below,
                target,
                #[trigger] totals[k],
                false,
            ) by {
                assert(totals[k] == before[k]);
            }
        }
        total = next;
        let hit: bool = compare(judge, Relation::Below, target, total);
        if hit || i + 1 == probs.len() {
            assert(folded(totals, probs@, calc.zero, Op::Plus, *calc));
            return Ok(i);
        }
        assert(totals[i as int + 1] == total);
        i = i + 1;
    }
}

// ---------------------------------------------------------------------
// What holds of candidates
// ---------------------------------------------------------------------

/// There are as many candidates as allowed, and one more only where a forced one was cut off.
pub proof fn candidate_count(logits: Seq<u32>, top_k: i32, forced: Option<u32>)
    requires
        logits.len() < usize::MAX,
    ensures
        candidates(logits, top_k, forced).len() == candidate_limit(top_k, logits.len()) + (
        if is_added(logits, top_k, forced) {
            1int
        } else {
            0
        }),
{
    lemma_places_compare();
    crate::order::an_order_exists(logits, larger_first());
    let best = best_ids(logits, top_k);
    let all = if is_added(logits, top_k, forced) {
        best.push(forced->0 as usize)
    } else {
        best
    };
    crate::order::an_order_exists(logits_of(logits, all), larger_first());
}

/// A forced token whose logit is worth keeping is always a candidate.
pub proof fn forced_token_is_candidate(logits: Seq<u32>, top_k: i32, forced: u32)
    requires
        logits.len() < usize::MAX,
        forced < logits.len(),
        worth_keeping(logits[forced as int]),
    ensures
        candidates(logits, top_k, Some(forced)).contains(forced as usize),
{
    lemma_places_compare();
    crate::order::an_order_exists(logits, larger_first());
    let best = best_ids(logits, top_k);
    let added = is_added(logits, top_k, Some(forced));
    let all = if added {
        best.push(forced as usize)
    } else {
        best
    };
    let keys = logits_of(logits, all);
    crate::order::an_order_exists(keys, larger_first());
    let order = order_of(keys, larger_first());
    assert(all.contains(forced as usize)) by {
        if added {
            assert(all[best.len() as int] == forced as usize);
        }
    }
    let i = choose|i: int| 0 <= i < all.len() && all[i] == forced as usize;
    crate::order::order_lists_each_position_once(order, keys, larger_first(), i as usize);
    let k = choose|k: int| 0 <= k < order.len() && order[k] == i as usize;
    assert(listed(all, order)[k] == forced as usize);
}

/// No token that was cut off has a larger logit than one that was kept.
pub proof fn kept_candidates_are_largest(logits: Seq<u32>, top_k: i32, kept: int, cut: int)
    requires
        logits.len() <= usize::MAX,
        0 <= kept < candidate_limit(top_k, logits.len()) <= cut < logits.len(),
    ensures
        ({
            let order = order_of(logits, larger_first());
            place_of(logits[best_ids(logits, top_k)[kept] as int]) >= place_of(
                logits[order[cut] as int],
            )
        }),
{
    lemma_places_compare();
    crate::order::an_order_exists(logits, larger_first());
    let order = order_of(logits, larger_first());
    assert(crate::order::comes_before(logits, larger_first(), order[kept], order[cut]));
}

} // verus!
