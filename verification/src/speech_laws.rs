//! What generating speech comes to.
use crate::chosen::{is_sampled, is_speech_token, state_after};
use crate::fast_run::{prefix_gives, FastArValues};
use crate::generate::{bars_end, frames_seen, semantic_code, step_error, step_input};
use crate::graph::DualArGraphSpec;
use crate::numeric::{Calc, Op};
use crate::prompt::time_major;
use crate::sampling::{fraction_is_upper_part, Judge, Relation, SamplerParams};
use crate::slow_state::{SlowArStepResult, SlowStateView};
use crate::speech::{are_drawn, code_follows, is_frame, Moment, Setting};
use vstd::prelude::*;

verus! {

// ---------------------------------------------------------------------
// Tokens and codes
// ---------------------------------------------------------------------

/// The code of a speech token says which one it is, counted from the first. A token beyond the
/// codebook has the last code, and a token that is no speech token has code zero.
pub proof fn speech_tokens_count_from_the_first(token: u32, g: DualArGraphSpec)
    ensures
        g.semantic_begin_id <= token <= g.semantic_end_id && token < g.semantic_begin_id
            + g.codebook_size ==> g.semantic_begin_id + semantic_code(token, g) == token,
        g.semantic_begin_id <= token <= g.semantic_end_id && token >= g.semantic_begin_id
            + g.codebook_size && g.codebook_size > 0 ==> semantic_code(token, g) + 1
            == g.codebook_size,
        token < g.semantic_begin_id || token > g.semantic_end_id ==> semantic_code(token, g) == 0,
        g.codebook_size > 0 ==> semantic_code(token, g) < g.codebook_size,
{
}

/// A token of a frame is taken in with the codes of the frame, each at its place behind the token.
pub proof fn speech_tokens_go_in_with_their_codes(
    token: u32,
    ids: Seq<u32>,
    g: DualArGraphSpec,
    c: int,
)
    requires
        step_error(token, Some(ids), g) is None,
        g.semantic_begin_id <= token <= g.semantic_end_id,
        0 <= c < ids.len(),
    ensures
        ids.len() == g.num_codebooks,
        step_input(token, Some(ids), g).len() == ids.len() + 1,
        step_input(token, Some(ids), g)[0] == token,
        step_input(token, Some(ids), g)[c + 1] == ids[c],
{
    assert(ids[c] <= i32::MAX);
}

/// A speech token without a frame is taken in with its own code alone, and a token that is no speech
/// token without codes.
pub proof fn tokens_without_frames_go_in_alone(
    token: u32,
    codes: Option<Seq<u32>>,
    g: DualArGraphSpec,
    c: int,
)
    requires
        step_error(token, codes, g) is None,
        codes is None || token < g.semantic_begin_id || token > g.semantic_end_id,
        1 <= c <= g.num_codebooks,
    ensures
        step_input(token, codes, g).len() == g.num_codebooks + 1,
        step_input(token, codes, g)[0] == token,
        token < g.semantic_begin_id || token > g.semantic_end_id ==> step_input(token, codes, g)[c]
            == 0,
        g.semantic_begin_id <= token <= g.semantic_end_id ==> step_input(token, codes, g)[c] == (
        if c == 1 {
            token - g.semantic_begin_id
        } else {
            0
        }),
{
}

/// Speech may not end as long as fewer tokens than the least were counted: those behind the prompt,
/// and the frames once more.
pub proof fn speech_may_not_end_early(n_past: usize, prompt_cols: usize, frames: nat, least: u32)
    requires
        prompt_cols <= n_past,
        n_past - prompt_cols + frames <= u32::MAX,
    ensures
        frames_seen(n_past, prompt_cols, frames) == n_past - prompt_cols + frames,
        bars_end(frames_seen(n_past, prompt_cols, frames), least) <==> n_past - prompt_cols + frames
            < least,
{
}

// ---------------------------------------------------------------------
// The codes of a frame
// ---------------------------------------------------------------------

/// Whether code `i` of a frame was chosen by what the fast transformer makes of the codes before it,
/// with the random number that follows a state.
#[verifier::opaque]
pub open spec fn is_drawn_next<
    T: Copy,
    F: Fn(Op, T, T, T) -> T,
    B: Fn(T) -> u32,
    G: Fn(Relation, T, T) -> bool,
>(
    hidden: Seq<T>,
    earlier: Seq<u32>,
    code: u32,
    graph: DualArGraphSpec,
    weights: FastArValues<T>,
    params: SamplerParams,
    calc: Calc<T, F>,
    judge: Judge<B, G>,
    before: u64,
    after: u64,
) -> bool {
    exists|logits: Seq<T>|
        {
            &&& #[trigger] prefix_gives(hidden, earlier, graph, weights, calc, logits)
            &&& is_sampled(
                logits,
                params,
                None,
                crate::sampling::next_state(before) / 2048,
                calc,
                judge,
                code,
            )
            &&& logits.len() > 0 ==> after == crate::sampling::next_state(before)
            &&& logits.len() == 0 ==> after == before
        }
}

/// Whether the codes of a frame were drawn one after another, from state to state.
pub open spec fn are_drawn_in_turn<
    T: Copy,
    F: Fn(Op, T, T, T) -> T,
    B: Fn(T) -> u32,
    G: Fn(Relation, T, T) -> bool,
>(
    hidden: Seq<T>,
    ids: Seq<u32>,
    graph: DualArGraphSpec,
    weights: FastArValues<T>,
    params: SamplerParams,
    calc: Calc<T, F>,
    judge: Judge<B, G>,
    states: Seq<u64>,
) -> bool {
    &&& states.len() == ids.len()
    &&& forall|i: int|
        1 <= i < ids.len() ==> is_drawn_next(
            hidden,
            ids.take(i),
            #[trigger] ids[i],
            graph,
            weights,
            params,
            calc,
            judge,
            states[i - 1],
            states[i],
        )
}

/// A frame has a code for every codebook. The first is the semantic code, and every other one is
/// chosen by what the fast transformer makes of all codes before it.
pub proof fn frames_are_drawn_code_by_code<
    T: Copy,
    F: Fn(Op, T, T, T) -> T,
    B: Fn(T) -> u32,
    G: Fn(Relation, T, T) -> bool,
>(
    hidden: Seq<T>,
    code: u32,
    graph: DualArGraphSpec,
    weights: FastArValues<T>,
    params: SamplerParams,
    calc: Calc<T, F>,
    judge: Judge<B, G>,
    before: u64,
    ids: Seq<u32>,
    after: u64,
)
    requires
        is_frame(hidden, code, graph, weights, params, calc, judge, before, ids, after),
        graph.num_codebooks > 0,
    ensures
        ids.len() == graph.num_codebooks,
        ids[0] == code,
        forall|i: int| 0 <= i < ids.len() ==> #[trigger] ids[i] < graph.codebook_size,
        exists|states: Seq<u64>|
            #[trigger] are_drawn_in_turn(
                hidden,
                ids,
                graph,
                weights,
                params,
                calc,
                judge,
                states,
            ) && states[0] == before && states.last() == after,
{
    reveal(is_frame);
    let states = choose|states: Seq<u64>|
        #[trigger] are_drawn(hidden, ids, graph, weights, params, calc, judge, states)
            && states[0] == before && states.last() == after;
    reveal(are_drawn);
    assert forall|i: int| 1 <= i < ids.len() implies is_drawn_next(
        hidden,
        ids.take(i),
        #[trigger] ids[i],
        graph,
        weights,
        params,
        calc,
        judge,
        states[i - 1],
        states[i],
    ) by {
        let _ = states[i];
        lemma_drawn_next(
            hidden,
            ids,
            i,
            graph,
            weights,
            params,
            calc,
            judge,
            states[i - 1],
            states[i],
        );
    }
    assert(are_drawn_in_turn(hidden, ids, graph, weights, params, calc, judge, states));
}

proof fn lemma_drawn_next<
    T: Copy,
    F: Fn(Op, T, T, T) -> T,
    B: Fn(T) -> u32,
    G: Fn(Relation, T, T) -> bool,
>(
    hidden: Seq<T>,
    ids: Seq<u32>,
    i: int,
    graph: DualArGraphSpec,
    weights: FastArValues<T>,
    params: SamplerParams,
    calc: Calc<T, F>,
    judge: Judge<B, G>,
    before: u64,
    after: u64,
)
    requires
        code_follows(hidden, ids, i, graph, weights, params, calc, judge, before, after),
    ensures
        is_drawn_next(
            hidden,
            ids.take(i),
            ids[i],
            graph,
            weights,
            params,
            calc,
            judge,
            before,
            after,
        ),
{
    reveal(code_follows);
    reveal(is_drawn_next);
    fraction_is_upper_part(crate::sampling::next_state(before));
    let logits = choose|logits: Seq<T>|
        {
            &&& #[trigger] prefix_gives(hidden, ids.take(i), graph, weights, calc, logits)
            &&& is_sampled(
                logits,
                params,
                None,
                crate::sampling::fraction_of(crate::sampling::next_state(before)),
                calc,
                judge,
                ids[i],
            )
            &&& after == state_after(logits.len(), before)
        };
    assert(prefix_gives(hidden, ids.take(i), graph, weights, calc, logits));
}

// ---------------------------------------------------------------------
// A run
// ---------------------------------------------------------------------

/// Whether a token was chosen by what the slow transformer gave for the newest token, with the end of
/// speech barred or not, and the random number that follows a state.
pub open spec fn is_next_token<
    T: Copy,
    F: Fn(Op, T, T, T) -> T,
    B: Fn(T) -> u32,
    G: Fn(Relation, T, T) -> bool,
>(
    set: Setting<T, F, B, G>,
    bias: Seq<T>,
    barred: bool,
    logits: Seq<T>,
    before: u64,
    token: u32,
    after: u64,
) -> bool {
    &&& bias.len() == logits.len()
    &&& is_speech_token(
        logits,
        bias,
        set.end,
        barred,
        SamplerParams {
            temperature: set.params.temperature,
            top_p: set.params.top_p,
            top_k: set.params.top_k,
        },
        crate::sampling::next_state(before) / 2048,
        set.calc,
        set.judge,
        token,
    )
    &&& logits.len() > 0 ==> after == crate::sampling::next_state(before)
    &&& logits.len() == 0 ==> after == before
}

/// A token is chosen by the logits, the end of speech barred as long as too few tokens were seen.
pub proof fn tokens_are_chosen_by_the_newest_logits<
    T: Copy,
    F: Fn(Op, T, T, T) -> T,
    B: Fn(T) -> u32,
    G: Fn(Relation, T, T) -> bool,
>(
    set: Setting<T, F, B, G>,
    bias: Seq<T>,
    seen: usize,
    step: SlowArStepResult<T>,
    before: u64,
    token: u32,
    after: u64,
)
    requires
        set.chooses(bias, seen, step, before, token, after),
        seen <= u32::MAX,
    ensures
        is_next_token(
            set,
            bias,
            seen < set.params.min_tokens_before_end,
            step.logits@,
            before,
            token,
            after,
        ),
{
    fraction_is_upper_part(crate::sampling::next_state(before));
}

/// Whether nothing was taken in yet: the run is at its start, and its cache holds zeros.
pub open spec fn has_forgotten<T>(s: SlowStateView<T>, zero: T) -> bool {
    &&& s.n_past == 0
    &&& forall|i: int| 0 <= i < s.cache.keys.len() ==> #[trigger] s.cache.keys[i] == zero
    &&& forall|i: int| 0 <= i < s.cache.values.len() ==> #[trigger] s.cache.values[i] == zero
}

/// Whether both runs have the same weights.
pub open spec fn share_weights<T>(a: SlowStateView<T>, b: SlowStateView<T>) -> bool {
    &&& a.file == b.file
    &&& a.graph == b.graph
    &&& a.semantic == b.semantic
    &&& a.codebook == b.codebook
    &&& a.norm == b.norm
    &&& a.embeddings == b.embeddings
    &&& a.max_seq_len == b.max_seq_len
}

/// Whether a run takes in numbers, with this outcome.
#[verifier::opaque]
pub open spec fn takes_in<T: Copy, F: Fn(Op, T, T, T) -> T>(
    s: SlowStateView<T>,
    file: Seq<u8>,
    flat: Seq<i32>,
    calc: Calc<T, F>,
    step: SlowArStepResult<T>,
    after: crate::attention::CacheView<T>,
) -> bool {
    s.gives(file, flat, calc, step, after)
}

/// Whether a bias lets through speech tokens and the end of speech, and nothing else.
pub open spec fn lets_through_speech<
    T: Copy,
    F: Fn(Op, T, T, T) -> T,
    B: Fn(T) -> u32,
    G: Fn(Relation, T, T) -> bool,
>(set: Setting<T, F, B, G>, bias: Seq<T>, masked: T) -> bool {
    &&& set.calc.gives(
        Op::Single(0xff80_0000),
        set.calc.zero,
        set.calc.zero,
        set.calc.zero,
        masked,
    )
    &&& forall|i: int|
        0 <= i < bias.len() && i <= u32::MAX ==> #[trigger] bias[i] == (if (
        set.graph.semantic_begin_id <= i <= set.graph.semantic_end_id) || i == set.end {
            set.calc.zero
        } else {
            masked
        })
}

/// Speech starts with a run that has forgotten everything and takes in the whole prompt. The first
/// token is chosen by what comes of it, among speech tokens and the end of speech.
pub proof fn speech_starts_with_the_prompt<
    T: Copy,
    F: Fn(Op, T, T, T) -> T,
    B: Fn(T) -> u32,
    G: Fn(Relation, T, T) -> bool,
>(
    set: Setting<T, F, B, G>,
    s: SlowStateView<T>,
    rng: u64,
    bias: Seq<T>,
    first: Moment<T>,
)
    requires
        set.starts(s, rng, bias, first),
        set.prompt.rows == s.graph.num_codebooks + 1,
    ensures
        exists|fresh: SlowStateView<T>|
            {
                &&& has_forgotten(fresh, set.calc.zero)
                &&& share_weights(fresh, s)
                &&& #[trigger] takes_in(
                    fresh,
                    set.file,
                    time_major(
                        set.prompt.data@,
                        set.prompt.rows as int,
                        set.prompt.cols as int,
                    ),
                    set.calc,
                    first.step,
                    first.state.cache,
                )
            },
        share_weights(first.state, s),
        set.prompt.data@.len() == set.prompt.rows * set.prompt.cols,
        first.state.n_past == set.prompt.cols,
        bias.len() == first.step.logits@.len(),
        exists|masked: T| #[trigger] lets_through_speech(set, bias, masked),
        is_next_token(
            set,
            bias,
            0 < set.params.min_tokens_before_end,
            first.step.logits@,
            rng,
            first.token,
            first.rng,
        ),
{
    reveal(Setting::starts);
    let fresh = choose|fresh: SlowStateView<T>|
        #[trigger] set.is_fresh(s, fresh) && set.begins(fresh, first.state, first.step);
    lemma_prompt_is_taken_in(set, s, fresh, first);
    lemma_bias(set, bias, first.step.logits@.len());
    tokens_are_chosen_by_the_newest_logits(
        set,
        bias,
        0,
        first.step,
        rng,
        first.token,
        first.rng,
    );
}

proof fn lemma_bias<
    T: Copy,
    F: Fn(Op, T, T, T) -> T,
    B: Fn(T) -> u32,
    G: Fn(Relation, T, T) -> bool,
>(set: Setting<T, F, B, G>, bias: Seq<T>, count: nat)
    requires
        set.is_bias(bias, count),
    ensures
        bias.len() == count,
        exists|masked: T| #[trigger] lets_through_speech(set, bias, masked),
{
    let masked = choose|masked: T|
        {
            &&& #[trigger] set.calc.gives(
                Op::Single(0xff80_0000),
                set.calc.zero,
                set.calc.zero,
                set.calc.zero,
                masked,
            )
            &&& bias.len() == count
            &&& forall|i: int|
                0 <= i < count ==> #[trigger] bias[i] == (if i <= u32::MAX
                    && crate::sampling::allowed(
                    i as u32,
                    set.graph.semantic_begin_id,
                    set.graph.semantic_end_id,
                    Some(set.end),
                ) {
                    set.calc.zero
                } else {
                    masked
                })
        };
    assert(lets_through_speech(set, bias, masked));
}

proof fn lemma_prompt_is_taken_in<
    T: Copy,
    F: Fn(Op, T, T, T) -> T,
    B: Fn(T) -> u32,
    G: Fn(Relation, T, T) -> bool,
>(set: Setting<T, F, B, G>, s: SlowStateView<T>, fresh: SlowStateView<T>, first: Moment<T>)
    requires
        set.is_fresh(s, fresh),
        set.begins(fresh, first.state, first.step),
        set.prompt.rows == s.graph.num_codebooks + 1,
    ensures
        has_forgotten(fresh, set.calc.zero),
        share_weights(fresh, s),
        takes_in(
            fresh,
            set.file,
            time_major(set.prompt.data@, set.prompt.rows as int, set.prompt.cols as int),
            set.calc,
            first.step,
            first.state.cache,
        ),
        share_weights(first.state, s),
        set.prompt.data@.len() == set.prompt.rows * set.prompt.cols,
        first.state.n_past == set.prompt.cols,
{
    reveal(takes_in);
    let rows = set.prompt.rows as int;
    let cols = set.prompt.cols as int;
    assert((rows * cols) / rows == cols) by (nonlinear_arith)
        requires
            rows > 0,
    ;
}

/// Whether a run went on by one token with what stands for it.
pub open spec fn goes_on_with<
    T: Copy,
    F: Fn(Op, T, T, T) -> T,
    B: Fn(T) -> u32,
    G: Fn(Relation, T, T) -> bool,
>(
    set: Setting<T, F, B, G>,
    bias: Seq<T>,
    input: Seq<i32>,
    frames: int,
    rng: u64,
    a: Moment<T>,
    b: Moment<T>,
) -> bool {
    &&& takes_in(a.state, set.file, input, set.calc, b.step, b.state.cache)
    &&& share_weights(a.state, b.state)
    &&& a.state.n_past < usize::MAX ==> b.state.n_past == a.state.n_past + 1
    &&& set.prompt.cols <= b.state.n_past && b.state.n_past - set.prompt.cols + frames <= u32::MAX
        ==> is_next_token(
        set,
        bias,
        b.state.n_past - set.prompt.cols + frames < set.params.min_tokens_before_end,
        b.step.logits@,
        rng,
        b.token,
        b.rng,
    )
}

/// The next moment of speech comes of taking in one token more; the next token is chosen by what the
/// slow transformer makes of it.
pub proof fn moments_follow_by_one_token<
    T: Copy,
    F: Fn(Op, T, T, T) -> T,
    B: Fn(T) -> u32,
    G: Fn(Relation, T, T) -> bool,
>(
    set: Setting<T, F, B, G>,
    bias: Seq<T>,
    input: Seq<i32>,
    count: nat,
    rng: u64,
    a: Moment<T>,
    b: Moment<T>,
)
    requires
        set.moves_on(bias, input, count, rng, a, b),
    ensures
        goes_on_with(set, bias, input, count as int, rng, a, b),
{
    reveal(Setting::moves_on);
    reveal(takes_in);
    if set.prompt.cols <= b.state.n_past && b.state.n_past - set.prompt.cols + count <= u32::MAX {
        speech_may_not_end_early(
            b.state.n_past,
            set.prompt.cols,
            count,
            set.params.min_tokens_before_end,
        );
        tokens_are_chosen_by_the_newest_logits(
            set,
            bias,
            frames_seen(b.state.n_past, set.prompt.cols, count),
            b.step,
            rng,
            b.token,
            b.rng,
        );
    }
}

/// Whether a frame was made of what the slow transformer gave for the newest token, with the code of
/// the token that was chosen by it, and taken in with that token.
#[verifier::opaque]
pub open spec fn is_frame_of_speech<
    T: Copy,
    F: Fn(Op, T, T, T) -> T,
    B: Fn(T) -> u32,
    G: Fn(Relation, T, T) -> bool,
>(
    set: Setting<T, F, B, G>,
    weights: FastArValues<T>,
    bias: Seq<T>,
    frames: int,
    a: Moment<T>,
    ids: Seq<u32>,
    b: Moment<T>,
) -> bool {
    &&& a.token != set.end
    &&& frames < set.params.max_new_tokens
    &&& exists|mid: u64|
        {
            &&& #[trigger] is_frame(
                a.step.hidden@,
                semantic_code(a.token, set.graph),
                set.graph,
                weights,
                SamplerParams {
                    temperature: set.params.temperature,
                    top_p: set.params.top_p,
                    top_k: set.params.top_k,
                },
                set.calc,
                set.judge,
                a.rng,
                ids,
                mid,
            )
            &&& goes_on_with(
                set,
                bias,
                step_input(a.token, Some(ids), set.graph),
                frames + 1,
                mid,
                a,
                b,
            )
        }
}

/// Whether frames follow each other from moment to moment.
pub open spec fn are_frames_of_speech<
    T: Copy,
    F: Fn(Op, T, T, T) -> T,
    B: Fn(T) -> u32,
    G: Fn(Relation, T, T) -> bool,
>(
    set: Setting<T, F, B, G>,
    weights: FastArValues<T>,
    bias: Seq<T>,
    frames: Seq<Seq<u32>>,
    moments: Seq<Moment<T>>,
) -> bool {
    &&& moments.len() == frames.len() + 1
    &&& forall|i: int|
        0 <= i < frames.len() ==> is_frame_of_speech(
            set,
            weights,
            bias,
            i,
            moments[i],
            #[trigger] frames[i],
            moments[i + 1],
        )
}

/// Speech consists of frames that follow each other from the start on. It ends where the end of
/// speech was chosen, or where there are as many frames as allowed, and not before.
pub proof fn speech_ends_at_its_end_token<
    T: Copy,
    F: Fn(Op, T, T, T) -> T,
    B: Fn(T) -> u32,
    G: Fn(Relation, T, T) -> bool,
>(
    set: Setting<T, F, B, G>,
    weights: FastArValues<T>,
    s: SlowStateView<T>,
    rng: u64,
    frames: Seq<Seq<u32>>,
    last: Moment<T>,
)
    requires
        set.speaks(weights, s, rng, frames, last),
    ensures
        frames.len() <= set.params.max_new_tokens,
        last.token == set.end || frames.len() == set.params.max_new_tokens,
        exists|bias: Seq<T>, moments: Seq<Moment<T>>|
            {
                &&& #[trigger] are_frames_of_speech(set, weights, bias, frames, moments)
                &&& set.starts(s, rng, bias, moments[0])
                &&& moments.last() == last
            },
{
    let (bias, moments) = choose|bias: Seq<T>, moments: Seq<Moment<T>>|
        {
            &&& #[trigger] set.frames_lead(weights, bias, frames, moments)
            &&& set.starts(s, rng, bias, moments[0])
            &&& moments.last() == last
            &&& !set.goes_on(last, frames.len())
        };
    assert forall|i: int| 0 <= i < frames.len() implies is_frame_of_speech(
        set,
        weights,
        bias,
        i,
        moments[i],
        #[trigger] frames[i],
        moments[i + 1],
    ) && i < set.params.max_new_tokens by {
        assert(set.frame_leads(
            weights,
            bias,
            i as nat,
            moments[i],
            frames[i],
            moments[i + 1],
        ));
        lemma_frame_of_speech(
            set,
            weights,
            bias,
            i as nat,
            moments[i],
            frames[i],
            moments[i + 1],
        );
    }
    if frames.len() > 0 {
        let _ = frames[frames.len() - 1];
    }
    assert(are_frames_of_speech(set, weights, bias, frames, moments));
}

proof fn lemma_frame_of_speech<
    T: Copy,
    F: Fn(Op, T, T, T) -> T,
    B: Fn(T) -> u32,
    G: Fn(Relation, T, T) -> bool,
>(
    set: Setting<T, F, B, G>,
    weights: FastArValues<T>,
    bias: Seq<T>,
    count: nat,
    a: Moment<T>,
    ids: Seq<u32>,
    b: Moment<T>,
)
    requires
        set.frame_leads(weights, bias, count, a, ids, b),
    ensures
        is_frame_of_speech(set, weights, bias, count as int, a, ids, b),
        count < set.params.max_new_tokens,
{
    reveal(is_frame_of_speech);
    reveal(Setting::gives_frame);
    let mid = choose|mid: u64|
        #[trigger] set.gives_frame(weights, a, ids, mid) && set.moves_on(
            bias,
            step_input(a.token, Some(ids), set.graph),
            count + 1,
            mid,
            a,
            b,
        );
    moments_follow_by_one_token(
        set,
        bias,
        step_input(a.token, Some(ids), set.graph),
        count + 1,
        mid,
        a,
        b,
    );
    assert(set.gives_frame(weights, a, ids, mid));
}

/// Without frames, every token is taken in alone, and the next one is chosen by what comes of it.
pub proof fn tokens_alone_lead_to_the_next<
    T: Copy,
    F: Fn(Op, T, T, T) -> T,
    B: Fn(T) -> u32,
    G: Fn(Relation, T, T) -> bool,
>(set: Setting<T, F, B, G>, bias: Seq<T>, moments: Seq<Moment<T>>, i: int)
    requires
        set.tokens_lead(bias, moments),
        0 <= i < moments.len() - 1,
    ensures
        moments[i].token != set.end,
        i < set.params.max_new_tokens,
        goes_on_with(
            set,
            bias,
            step_input(moments[i].token, None, set.graph),
            i,
            moments[i].rng,
            moments[i],
            moments[i + 1],
        ),
{
    assert(set.token_leads(bias, i as nat, moments[i], moments[i + 1]));
    moments_follow_by_one_token(
        set,
        bias,
        step_input(moments[i].token, None, set.graph),
        i as nat,
        moments[i].rng,
        moments[i],
        moments[i + 1],
    );
}

} // verus!
