//! Generating speech: the slow transformer gives a token for each frame, the fast one the other
//! codes of the frame.
use crate::chosen::{is_sampled, is_speech_token, sample_semantic_token, sample_token, state_after};
use crate::error::{message, mismatch, ErrorView, InferError};
use crate::fast_run::{
    forward_codebook_prefix, prefix_fails, prefix_gives, CodebookRun, FastArValues,
};
use crate::generate::{
    bars_end, blocks_im_end, books_of, code_table, frame_error, frames_seen, semantic_code,
    semantic_to_codebook_id, step_error, step_input, CodesRun, FastArFirstFrameResult,
    GenerateCodesResult, GenerateParams, GenerateSemanticResult, SemanticRun,
};
use crate::graph::DualArGraphSpec;
use crate::numeric::{Calc, Op};
use crate::prompt::{time_major, transpose_error, transpose_to_time_major, PromptTensor};
use crate::sampling::{
    allowed, bias_error, build_semantic_bias, can_judge, fraction_of, next_state, Judge, Relation,
    SamplerParams, SeededRng,
};
use crate::sizes::or_else;
use crate::slow_ar::{time_in, SlowArDecodeProfile, SlowArProfileOp};
use crate::slow_embed::{embed_error, token_count};
use crate::slow_run::is_empty_cache;
use crate::slow_state::{SlowArState, SlowArStepResult, SlowStateView};
use crate::text::dec;
use crate::tokenizer::S2TokenizerConfig;
use vstd::prelude::*;

verus! {

// ---------------------------------------------------------------------
// The codes of one frame
// ---------------------------------------------------------------------

/// Whether code `i` of a frame was chosen after those before it.
#[verifier::opaque]
pub open spec fn code_follows<
    T: Copy,
    F: Fn(Op, T, T, T) -> T,
    B: Fn(T) -> u32,
    G: Fn(Relation, T, T) -> bool,
>(
    hidden: Seq<T>,
    ids: Seq<u32>,
    i: int,
    graph: DualArGraphSpec,
    weights: FastArValues<T>,
    params: SamplerParams,
    calc: Calc<T, F>,
    judge: Judge<B, G>,
    before: u64,
    after: u64,
) -> bool {
    exists|logits: Seq<T>|
        {
            &&& #[trigger] prefix_gives(hidden, ids.take(i), graph, weights, calc, logits)
            &&& is_sampled(
                logits,
                params,
                None,
                fraction_of(next_state(before)),
                calc,
                judge,
                ids[i],
            )
            &&& after == state_after(logits.len(), before)
        }
}

/// Whether the codes of a frame were chosen one after another, with the states of the source of
/// random numbers along the way.
#[verifier::opaque]
pub open spec fn are_drawn<
    T: Copy,
    F: Fn(Op, T, T, T) -> T,
    B: Fn(T) -> u32,
    G: Fn(Relation, T, T) -> bool,
>(
    hidden: Seq<T>,
    ids: Seq<u32>,
    graph: DualArGraphSpec,
    weights: FastArValues<T>,
    params: SamplerParams,
    calc: Calc<T, F>,
    judge: Judge<B, G>,
    states: Seq<u64>,
) -> bool {
    &&& ids.len() > 0
    &&& states.len() == ids.len()
    &&& forall|i: int| 0 <= i < ids.len() ==> #[trigger] ids[i] < graph.codebook_size
    &&& forall|i: int|
        1 <= i < ids.len() ==> code_follows(
            hidden,
            ids,
            i,
            graph,
            weights,
            params,
            calc,
            judge,
            states[i - 1],
            #[trigger] states[i],
        )
}

/// Whether a frame that starts with a semantic code has these codes.
#[verifier::opaque]
pub open spec fn is_frame<
    T: Copy,
    F: Fn(Op, T, T, T) -> T,
    B: Fn(T) -> u32,
    G: Fn(Relation, T, T) -> bool,
>(
    hidden: Seq<T>,
    semantic_code: u32,
    graph: DualArGraphSpec,
    weights: FastArValues<T>,
    params: SamplerParams,
    calc: Calc<T, F>,
    judge: Judge<B, G>,
    before: u64,
    ids: Seq<u32>,
    after: u64,
) -> bool {
    &&& ids.len() == books_of(graph)
    &&& ids[0] == semantic_code
    &&& exists|states: Seq<u64>|
        #[trigger] are_drawn(hidden, ids, graph, weights, params, calc, judge, states)
            && states[0] == before && states.last() == after
}

/// How the codes of a frame can fail to be chosen: the semantic code lies outside its codebook, the
/// fast transformer fails after some codes, or the next code lies outside its codebook.
#[verifier::opaque]
pub open spec fn frame_fails<
    T: Copy,
    F: Fn(Op, T, T, T) -> T,
    B: Fn(T) -> u32,
    G: Fn(Relation, T, T) -> bool,
>(
    hidden: Seq<T>,
    semantic_code: u32,
    graph: DualArGraphSpec,
    weights: FastArValues<T>,
    params: SamplerParams,
    base_text: Seq<char>,
    calc: Calc<T, F>,
    judge: Judge<B, G>,
    before: u64,
    e: ErrorView,
    after: u64,
) -> bool {
    if semantic_code >= graph.codebook_size {
        after == before && e == message(
            "semantic_code "@ + dec(semantic_code as nat) + " >= codebook_size "@ + dec(
                graph.codebook_size as nat,
            ),
        )
    } else {
        exists|ids: Seq<u32>, states: Seq<u64>|
            {
                &&& #[trigger] are_drawn(hidden, ids, graph, weights, params, calc, judge, states)
                &&& ids[0] == semantic_code
                &&& states[0] == before
                &&& ids.len() < graph.num_codebooks
                &&& {
                    ||| after == states.last() && prefix_fails(
                        hidden,
                        ids,
                        graph,
                        weights,
                        base_text,
                        calc,
                        e,
                    )
                    ||| exists|token: u32|
                        #[trigger] code_follows(
                            hidden,
                            ids.push(token),
                            ids.len() as int,
                            graph,
                            weights,
                            params,
                            calc,
                            judge,
                            states.last(),
                            after,
                        ) && token >= graph.codebook_size && e == message(
                            "sampled codebook token "@ + dec(token as nat) + " >= codebook_size "@
                                + dec(graph.codebook_size as nat),
                        )
                }
            }
    }
}

proof fn lemma_one_more_code<
    T: Copy,
    F: Fn(Op, T, T, T) -> T,
    B: Fn(T) -> u32,
    G: Fn(Relation, T, T) -> bool,
>(
    hidden: Seq<T>,
    ids: Seq<u32>,
    token: u32,
    graph: DualArGraphSpec,
    weights: FastArValues<T>,
    params: SamplerParams,
    calc: Calc<T, F>,
    judge: Judge<B, G>,
    states: Seq<u64>,
    after: u64,
)
    requires
        are_drawn(hidden, ids, graph, weights, params, calc, judge, states),
        code_follows(
            hidden,
            ids.push(token),
            ids.len() as int,
            graph,
            weights,
            params,
            calc,
            judge,
            states.last(),
            after,
        ),
        token < graph.codebook_size,
    ensures
        are_drawn(
            hidden,
            ids.push(token),
            graph,
            weights,
            params,
            calc,
            judge,
            states.push(after),
        ),
        states.len() == ids.len(),
        ids.len() > 0,
{
    reveal(are_drawn);
    let more = ids.push(token);
    let longer = states.push(after);
    assert forall|i: int| 1 <= i < more.len() implies code_follows(
        hidden,
        more,
        i,
        graph,
        weights,
        params,
        calc,
        judge,
        longer[i - 1],
        #[trigger] longer[i],
    ) by {
        assert(longer[i - 1] == states[i - 1]);
        if i < ids.len() {
            assert(code_follows(
                hidden,
                ids,
                i,
                graph,
                weights,
                params,
                calc,
                judge,
                states[i - 1],
                states[i],
            ));
            assert(more.take(i) =~= ids.take(i));
            assert(more[i] == ids[i]);
            assert(longer[i] == states[i]);
            reveal(code_follows);
        }
    }
}

/// Chooses the codes of a frame that starts with a semantic code.
pub fn generate_codebooks_for_semantic<
    T: Copy,
    F: Fn(Op, T, T, T) -> T,
    B: Fn(T) -> u32,
    G: Fn(Relation, T, T) -> bool,
>(
    slow_hidden: &[T],
    semantic_code: u32,
    graph: &DualArGraphSpec,
    weights: &FastArValues<T>,
    sampler: &SamplerParams,
    rng: &mut SeededRng,
    base_text: &str,
    calc: &Calc<T, F>,
    judge: &Judge<B, G>,
) -> (r: Result<Vec<u32>, InferError>)
    requires
        calc.works(),
        can_judge::<T, B, G>(*judge),
    ensures
        match r {
            Ok(ids) => is_frame(
                slow_hidden@,
                semantic_code,
                *graph,
                *weights,
                *sampler,
                *calc,
                *judge,
                old(rng).state,
                ids@,
                final(rng).state,
            ),
            Err(e) => frame_fails(
                slow_hidden@,
                semantic_code,
                *graph,
                *weights,
                *sampler,
                base_text@,
                *calc,
                *judge,
                old(rng).state,
                e@,
                final(rng).state,
            ),
        },
{
    let mut run = match CodebookRun::new(semantic_code, graph) {
        Err(e) => {
            reveal(frame_fails);
            return Err(e);
        },
        Ok(v) => v,
    };
    let ghost before = rng.state;
    let ghost mut states: Seq<u64> = seq![before];
    assert(are_drawn(
        slow_hidden@,
        run@.codes,
        *graph,
        *weights,
        *sampler,
        *calc,
        *judge,
        states,
    )) by {
        reveal(are_drawn);
    }
    loop
        invariant
            calc.works(),
            can_judge::<T, B, G>(*judge),
            semantic_code < graph.codebook_size,
            run@.fits(),
            run@.codebook_size == graph.codebook_size,
            run@.num_codebooks == graph.num_codebooks,
            run@.codes[0] == semantic_code,
            before == old(rng).state,
            states.len() == run@.codes.len(),
            states[0] == before,
            states.last() == rng.state,
            are_drawn(
                slow_hidden@,
                run@.codes,
                *graph,
                *weights,
                *sampler,
                *calc,
                *judge,
                states,
            ),
        ensures
            run@.codes.len() == books_of(*graph),
        decreases graph.num_codebooks - run@.codes.len(),
    {
        let logits = match run.next_prefix() {
            None => {
                break;
            },
            Some(prefix) => match forward_codebook_prefix(
                slow_hidden,
                prefix,
                graph,
                weights,
                base_text,
                calc,
            ) {
                Err(e) => {
                    assert(frame_fails(
                        slow_hidden@,
                        semantic_code,
                        *graph,
                        *weights,
                        *sampler,
                        base_text@,
                        *calc,
                        *judge,
                        before,
                        e@,
                        rng.state,
                    )) by {
                        reveal(frame_fails);
                    }
                    return Err(e);
                },
                Ok(v) => v,
            },
        };
        let ghost here = rng.state;
        let token: u32 = sample_token(logits.as_slice(), sampler, None, rng, calc, judge);
        let ghost ids = run@.codes;
        assert(code_follows(
            slow_hidden@,
            ids.push(token),
            ids.len() as int,
            *graph,
            *weights,
            *sampler,
            *calc,
            *judge,
            here,
            rng.state,
        )) by {
            reveal(code_follows);
            let more = ids.push(token);
            assert(more.take(ids.len() as int) =~= ids);
            assert(prefix_gives(
                slow_hidden@,
                more.take(ids.len() as int),
                *graph,
                *weights,
                *calc,
                logits@,
            ));
        }
        match run.take(token) {
            Err(e) => {
                assert(frame_fails(
                    slow_hidden@,
                    semantic_code,
                    *graph,
                    *weights,
                    *sampler,
                    base_text@,
                    *calc,
                    *judge,
                    before,
                    e@,
                    rng.state,
                )) by {
                    reveal(frame_fails);
                }
                return Err(e);
            },
            Ok(_) => {
                proof {
                    lemma_one_more_code(
                        slow_hidden@,
                        ids,
                        token,
                        *graph,
                        *weights,
                        *sampler,
                        *calc,
                        *judge,
                        states,
                        rng.state,
                    );
                    states = states.push(rng.state);
                }
            },
        }
    }
    assert(are_drawn(
        slow_hidden@,
        run@.codes,
        *graph,
        *weights,
        *sampler,
        *calc,
        *judge,
        states,
    ));
    reveal(is_frame);
    Ok(run.finish())
}

// ---------------------------------------------------------------------
// Steps of the slow transformer
// ---------------------------------------------------------------------

/// What stays the same while speech is generated.
pub ghost struct Setting<T, F, B, G> {
    pub file: Seq<u8>,
    pub base_text: Seq<char>,
    pub graph: DualArGraphSpec,
    pub end: u32,
    pub params: GenerateParams,
    pub prompt: PromptTensor,
    pub calc: Calc<T, F>,
    pub judge: Judge<B, G>,
}

/// How far speech has come: the run of the slow transformer, what it gave last, the token chosen by
/// it, and the state of the source of random numbers.
pub ghost struct Moment<T> {
    pub state: SlowStateView<T>,
    pub step: SlowArStepResult<T>,
    pub token: u32,
    pub rng: u64,
}

/// How to choose, as it follows from how to generate.
pub open spec fn sampler_of(p: GenerateParams) -> SamplerParams {
    SamplerParams { temperature: p.temperature, top_p: p.top_p, top_k: p.top_k }
}

fn make_sampler(p: &GenerateParams) -> (r: SamplerParams)
    ensures
        r == sampler_of(*p),
{
    SamplerParams { temperature: p.temperature, top_p: p.top_p, top_k: p.top_k }
}

impl<T: Copy, F: Fn(Op, T, T, T) -> T, B: Fn(T) -> u32, G: Fn(Relation, T, T) -> bool> Setting<
    T,
    F,
    B,
    G,
> {
    /// The numbers of the prompt, token by token.
    pub open spec fn flat(self) -> Seq<i32> {
        time_major(self.prompt.data@, self.prompt.rows as int, self.prompt.cols as int)
    }

    /// What is wrong with running the slow transformer, before it starts, if anything.
    pub open spec fn early_error(self, s: SlowStateView<T>, flat: Seq<i32>) -> Option<ErrorView> {
        or_else(s.input_error(flat.len()), embed_error(flat, s.graph, s.semantic, s.codebook))
    }

    /// Whether a run of the slow transformer that has forgotten everything gives this for the
    /// prompt.
    pub open spec fn begins(
        self,
        fresh: SlowStateView<T>,
        after: SlowStateView<T>,
        step: SlowArStepResult<T>,
    ) -> bool {
        &&& transpose_error(self.prompt) is None
        &&& self.early_error(fresh, self.flat()) is None
        &&& fresh.gives(self.file, self.flat(), self.calc, step, after.cache)
        &&& after == fresh.after(token_count(self.flat(), fresh.graph), after.cache)
    }

    /// Whether this is a run that has forgotten everything.
    pub open spec fn is_fresh(self, s: SlowStateView<T>, fresh: SlowStateView<T>) -> bool {
        &&& is_empty_cache(fresh.cache, s.graph, s.max_seq_len, self.calc.zero)
        &&& fresh == s.after(-(s.n_past as int), fresh.cache)
    }

    /// How the slow transformer can fail on the prompt.
    pub open spec fn begin_fails(self, s: SlowStateView<T>, e: ErrorView) -> bool {
        match transpose_error(self.prompt) {
            Some(found) => e == found,
            None => exists|fresh: SlowStateView<T>|
                #[trigger] self.is_fresh(s, fresh) && fresh.fails(
                    self.file,
                    self.flat(),
                    self.base_text,
                    self.calc,
                    e,
                ),
        }
    }

    /// Whether a bias lets through speech tokens and the end of speech only.
    pub open spec fn is_bias(self, bias: Seq<T>, count: nat) -> bool {
        exists|masked: T|
            {
                &&& #[trigger] self.calc.gives(
                    Op::Single(0xff80_0000),
                    self.calc.zero,
                    self.calc.zero,
                    self.calc.zero,
                    masked,
                )
                &&& bias.len() == count
                &&& forall|i: int|
                    0 <= i < count ==> #[trigger] bias[i] == (if i <= u32::MAX && allowed(
                        i as u32,
                        self.graph.semantic_begin_id,
                        self.graph.semantic_end_id,
                        Some(self.end),
                    ) {
                        self.calc.zero
                    } else {
                        masked
                    })
            }
    }

    /// Whether a token was chosen by what the slow transformer gave.
    pub open spec fn chooses(
        self,
        bias: Seq<T>,
        seen: usize,
        step: SlowArStepResult<T>,
        before: u64,
        token: u32,
        after: u64,
    ) -> bool {
        &&& bias_error(step.logits@.len(), bias.len()) is None
        &&& is_speech_token(
            step.logits@,
            bias,
            self.end,
            bars_end(seen, self.params.min_tokens_before_end),
            sampler_of(self.params),
            fraction_of(next_state(before)),
            self.calc,
            self.judge,
            token,
        )
        &&& after == state_after(step.logits@.len(), before)
    }

    /// Whether speech starts like this.
    #[verifier::opaque]
    pub open spec fn starts(
        self,
        s: SlowStateView<T>,
        rng: u64,
        bias: Seq<T>,
        first: Moment<T>,
    ) -> bool {
        &&& exists|fresh: SlowStateView<T>|
            #[trigger] self.is_fresh(s, fresh) && self.begins(fresh, first.state, first.step)
        &&& self.is_bias(bias, first.step.logits@.len())
        &&& self.chooses(bias, 0, first.step, rng, first.token, first.rng)
    }

    /// Whether the slow transformer takes in one more token, and the next one is chosen.
    #[verifier::opaque]
    pub open spec fn moves_on(
        self,
        bias: Seq<T>,
        input: Seq<i32>,
        count: nat,
        rng: u64,
        a: Moment<T>,
        b: Moment<T>,
    ) -> bool {
        &&& input.len() == a.state.graph.num_codebooks + 1
        &&& self.early_error(a.state, input) is None
        &&& a.state.gives(self.file, input, self.calc, b.step, b.state.cache)
        &&& b.state == a.state.after(1, b.state.cache)
        &&& self.chooses(
            bias,
            frames_seen(b.state.n_past, self.prompt.cols, count),
            b.step,
            rng,
            b.token,
            b.rng,
        )
    }

    /// How taking in one more token, or choosing the next one, can fail.
    #[verifier::opaque]
    pub open spec fn move_fails(
        self,
        bias: Seq<T>,
        input: Seq<i32>,
        a: Moment<T>,
        e: ErrorView,
    ) -> bool {
        if input.len() != a.state.graph.num_codebooks + 1 {
            e == mismatch(
                "step token width"@,
                (a.state.graph.num_codebooks + 1) as nat,
                input.len(),
            )
        } else {
            ||| a.state.fails(self.file, input, self.base_text, self.calc, e)
            ||| exists|step: SlowArStepResult<T>, after: SlowStateView<T>|
                {
                    &&& #[trigger] a.state.gives(self.file, input, self.calc, step, after.cache)
                    &&& bias_error(step.logits@.len(), bias.len()) == Some(e)
                }
        }
    }
}

/// Whether two runs are those of one model.
pub open spec fn same_model<T>(a: SlowStateView<T>, b: SlowStateView<T>) -> bool {
    &&& a.file == b.file
    &&& a.graph == b.graph
    &&& a.semantic == b.semantic
    &&& a.codebook == b.codebook
    &&& a.norm == b.norm
    &&& a.embeddings == b.embeddings
    &&& a.max_seq_len == b.max_seq_len
}

fn begin<T: Copy, F: Fn(Op, T, T, T) -> T, B: Fn(T) -> u32, G: Fn(Relation, T, T) -> bool>(
    state: &mut SlowArState<T>,
    file: &[u8],
    prompt: &PromptTensor,
    graph: &DualArGraphSpec,
    end: u32,
    base_text: &str,
    calc: &Calc<T, F>,
    set: Ghost<Setting<T, F, B, G>>,
) -> (r: Result<(SlowArStepResult<T>, Vec<T>), InferError>)
    requires
        old(state).ready(),
        calc.works(),
        set@.file == file@,
        set@.prompt == *prompt,
        set@.graph == *graph,
        set@.end == end,
        set@.base_text == base_text@,
        set@.calc == *calc,
    ensures
        final(state).ready(),
        same_model(final(state)@, old(state)@),
        match r {
            Ok(p) => {
                &&& exists|fresh: SlowStateView<T>|
                    #[trigger] set@.is_fresh(old(state)@, fresh) && set@.begins(
                        fresh,
                        final(state)@,
                        p.0,
                    )
                &&& set@.is_bias(p.1@, p.0.logits@.len())
            },
            Err(e) => set@.begin_fails(old(state)@, e@),
        },
{
    let flat = match transpose_to_time_major(prompt) {
        Err(e) => {
            return Err(e);
        },
        Ok(v) => v,
    };
    state.reset(calc.zero);
    let ghost fresh = state@;
    assert(set@.is_fresh(old(state)@, fresh));
    let step = match state.prefill(file, flat.as_slice(), base_text, calc) {
        Err(e) => {
            return Err(e);
        },
        Ok(v) => v,
    };
    let masked: T = calc.constant(Op::Single(0xff80_0000));
    let bias = build_semantic_bias(
        step.logits.len(),
        graph.semantic_begin_id,
        graph.semantic_end_id,
        Some(end),
        calc.zero,
        masked,
    );
    assert(set@.begins(fresh, state@, step));
    assert(set@.is_bias(bias@, step.logits@.len()));
    Ok((step, bias))
}

// ---------------------------------------------------------------------
// Speech codes
// ---------------------------------------------------------------------

impl<T: Copy, F: Fn(Op, T, T, T) -> T, B: Fn(T) -> u32, G: Fn(Relation, T, T) -> bool> Setting<
    T,
    F,
    B,
    G,
> {
    /// Whether speech goes on at a moment, with so many frames generated.
    pub open spec fn goes_on(self, a: Moment<T>, count: nat) -> bool {
        a.token != self.end && count < self.params.max_new_tokens
    }

    /// Whether these are the codes of the next frame.
    #[verifier::opaque]
    pub open spec fn gives_frame(
        self,
        weights: FastArValues<T>,
        a: Moment<T>,
        ids: Seq<u32>,
        after: u64,
    ) -> bool {
        is_frame(
            a.step.hidden@,
            semantic_code(a.token, self.graph),
            self.graph,
            weights,
            sampler_of(self.params),
            self.calc,
            self.judge,
            a.rng,
            ids,
            after,
        )
    }

    /// Whether one frame leads from a moment to the next.
    pub open spec fn frame_leads(
        self,
        weights: FastArValues<T>,
        bias: Seq<T>,
        count: nat,
        a: Moment<T>,
        ids: Seq<u32>,
        b: Moment<T>,
    ) -> bool {
        &&& self.goes_on(a, count)
        &&& frame_error(a.token, ids, self.graph) is None
        &&& exists|mid: u64|
            #[trigger] self.gives_frame(weights, a, ids, mid) && self.moves_on(
                bias,
                step_input(a.token, Some(ids), self.graph),
                count + 1,
                mid,
                a,
                b,
            )
    }

    /// Whether frames lead from moment to moment.
    pub open spec fn frames_lead(
        self,
        weights: FastArValues<T>,
        bias: Seq<T>,
        frames: Seq<Seq<u32>>,
        moments: Seq<Moment<T>>,
    ) -> bool {
        &&& moments.len() == frames.len() + 1
        &&& forall|i: int|
            0 <= i < frames.len() ==> self.frame_leads(
                weights,
                bias,
                i as nat,
                moments[i],
                #[trigger] frames[i],
                moments[i + 1],
            )
    }

    /// How the next frame, or what follows it, can fail.
    pub open spec fn frame_stops(
        self,
        weights: FastArValues<T>,
        bias: Seq<T>,
        count: nat,
        a: Moment<T>,
        e: ErrorView,
    ) -> bool {
        &&& self.goes_on(a, count)
        &&& {
            ||| exists|left: u64|
                #[trigger] frame_fails(
                    a.step.hidden@,
                    semantic_code(a.token, self.graph),
                    self.graph,
                    weights,
                    sampler_of(self.params),
                    self.base_text,
                    self.calc,
                    self.judge,
                    a.rng,
                    e,
                    left,
                )
            ||| exists|ids: Seq<u32>, mid: u64|
                #[trigger] self.gives_frame(weights, a, ids, mid) && match frame_error(
                    a.token,
                    ids,
                    self.graph,
                ) {
                    Some(found) => e == found,
                    None => self.move_fails(
                        bias,
                        step_input(a.token, Some(ids), self.graph),
                        a,
                        e,
                    ),
                }
        }
    }

    /// Whether a run from its start on generates these frames, and ends there.
    pub open spec fn speaks(
        self,
        weights: FastArValues<T>,
        s: SlowStateView<T>,
        rng: u64,
        frames: Seq<Seq<u32>>,
        last: Moment<T>,
    ) -> bool {
        exists|bias: Seq<T>, moments: Seq<Moment<T>>|
            {
                &&& #[trigger] self.frames_lead(weights, bias, frames, moments)
                &&& self.starts(s, rng, bias, moments[0])
                &&& moments.last() == last
                &&& !self.goes_on(last, frames.len())
            }
    }

    /// How a run can fail: on the prompt, for want of room, or at some frame.
    pub open spec fn speech_fails(
        self,
        weights: FastArValues<T>,
        s: SlowStateView<T>,
        rng: u64,
        e: ErrorView,
    ) -> bool {
        ||| self.begin_fails(s, e)
        ||| exists|fresh: SlowStateView<T>, after: SlowStateView<T>, step: SlowArStepResult<T>|
            {
                &&& #[trigger] self.is_fresh(s, fresh)
                &&& #[trigger] self.begins(fresh, after, step)
                &&& books_of(self.graph) * self.params.max_new_tokens > usize::MAX
                &&& e == message("codes buffer size overflow"@)
            }
        ||| exists|bias: Seq<T>, frames: Seq<Seq<u32>>, moments: Seq<Moment<T>>|
            {
                &&& #[trigger] self.frames_lead(weights, bias, frames, moments)
                &&& self.starts(s, rng, bias, moments[0])
                &&& self.frame_stops(weights, bias, frames.len(), moments.last(), e)
            }
    }
}

proof fn lemma_one_more_frame<
    T: Copy,
    F: Fn(Op, T, T, T) -> T,
    B: Fn(T) -> u32,
    G: Fn(Relation, T, T) -> bool,
>(
    set: Setting<T, F, B, G>,
    weights: FastArValues<T>,
    bias: Seq<T>,
    frames: Seq<Seq<u32>>,
    moments: Seq<Moment<T>>,
    ids: Seq<u32>,
    next: Moment<T>,
)
    requires
        set.frames_lead(weights, bias, frames, moments),
        set.frame_leads(weights, bias, frames.len(), moments.last(), ids, next),
    ensures
        set.frames_lead(weights, bias, frames.push(ids), moments.push(next)),
{
    let more = frames.push(ids);
    let longer = moments.push(next);
    assert forall|i: int| 0 <= i < more.len() implies set.frame_leads(
        weights,
        bias,
        i as nat,
        longer[i],
        #[trigger] more[i],
        longer[i + 1],
    ) by {
        assert(longer[i] == moments[i]);
        if i < frames.len() {
            assert(more[i] == frames[i]);
            assert(longer[i + 1] == moments[i + 1]);
        }
    }
}

fn speak_frame<
    T: Copy,
    F: Fn(Op, T, T, T) -> T,
    B: Fn(T) -> u32,
    G: Fn(Relation, T, T) -> bool,
>(
    state: &mut SlowArState<T>,
    file: &[u8],
    run: &mut CodesRun,
    step: &SlowArStepResult<T>,
    token: u32,
    code: u32,
    graph: &DualArGraphSpec,
    fast_weights: &FastArValues<T>,
    sampler: &SamplerParams,
    bias: &[T],
    end: u32,
    rng: &mut SeededRng,
    base_text: &str,
    calc: &Calc<T, F>,
    judge: &Judge<B, G>,
    set: Ghost<Setting<T, F, B, G>>,
) -> (r: Result<(SlowArStepResult<T>, u32, Ghost<Seq<u32>>), InferError>)
    requires
        old(state).ready(),
        calc.works(),
        can_judge::<T, B, G>(*judge),
        graph.num_codebooks < u32::MAX,
        graph.num_codebooks < usize::MAX,
        set@.file == file@,
        set@.base_text == base_text@,
        set@.graph == *graph,
        set@.end == end,
        set@.calc == *calc,
        set@.judge == *judge,
        *sampler == sampler_of(set@.params),
        old(run).consistent(),
        old(run).model() == *graph,
        old(run).least() == set@.params.min_tokens_before_end,
        old(run).prompt_width() == set@.prompt.cols,
        old(run).room() == set@.params.max_new_tokens,
        code == semantic_code(token, *graph),
        token != end,
        old(run).generated().len() < old(run).room(),
    ensures
        final(state).ready(),
        same_model(final(state)@, old(state)@),
        final(run).model() == old(run).model(),
        final(run).room() == old(run).room(),
        final(run).end_token() == old(run).end_token(),
        final(run).least() == old(run).least(),
        final(run).prompt_width() == old(run).prompt_width(),
        ({
            let here = Moment { state: old(state)@, step: *step, token, rng: old(rng).state };
            let count = old(run).generated().len();
            match r {
                Ok(p) => {
                    &&& final(run).consistent()
                    &&& final(run).generated() == old(run).generated().push(p.2@)
                    &&& set@.frame_leads(
                        *fast_weights,
                        bias@,
                        count,
                        here,
                        p.2@,
                        (Moment {
                            state: final(state)@,
                            step: p.0,
                            token: p.1,
                            rng: final(rng).state,
                        }),
                    )
                },
                Err(e) => set@.frame_stops(*fast_weights, bias@, count, here, e@),
            }
        }),
{
    let ghost here = Moment { state: state@, step: *step, token, rng: rng.state };
    let ghost count = run.generated().len();
    let ids = match generate_codebooks_for_semantic(
        step.hidden.as_slice(),
        code,
        graph,
        fast_weights,
        sampler,
        rng,
        base_text,
        calc,
        judge,
    ) {
        Err(e) => {
            proof {
                let left = rng.state;
                assert(frame_fails(
                    here.step.hidden@,
                    semantic_code(here.token, set@.graph),
                    set@.graph,
                    *fast_weights,
                    sampler_of(set@.params),
                    set@.base_text,
                    set@.calc,
                    set@.judge,
                    here.rng,
                    e@,
                    left,
                ));
            }
            return Err(e);
        },
        Ok(v) => v,
    };
    let ghost mid = rng.state;
    assert(set@.gives_frame(*fast_weights, here, ids@, mid)) by {
        reveal(Setting::gives_frame);
    }
    let input = match run.take_frame(token, ids.as_slice()) {
        Err(e) => {
            assert(set@.frame_stops(*fast_weights, bias@, count, here, e@));
            return Err(e);
        },
        Ok(v) => v,
    };
    match speak_next(
        state,
        file,
        input.as_slice(),
        bias,
        run,
        end,
        sampler,
        rng,
        base_text,
        calc,
        judge,
        set,
        Ghost(here),
    ) {
        Err(e) => {
            assert(set@.frame_stops(*fast_weights, bias@, count, here, e@));
            Err(e)
        },
        Ok((next, t)) => Ok((next, t, Ghost(ids@))),
    }
}

fn speak_next<
    T: Copy,
    F: Fn(Op, T, T, T) -> T,
    B: Fn(T) -> u32,
    G: Fn(Relation, T, T) -> bool,
>(
    state: &mut SlowArState<T>,
    file: &[u8],
    input: &[i32],
    bias: &[T],
    run: &CodesRun,
    end: u32,
    sampler: &SamplerParams,
    rng: &mut SeededRng,
    base_text: &str,
    calc: &Calc<T, F>,
    judge: &Judge<B, G>,
    set: Ghost<Setting<T, F, B, G>>,
    here: Ghost<Moment<T>>,
) -> (r: Result<(SlowArStepResult<T>, u32), InferError>)
    requires
        old(state).ready(),
        calc.works(),
        can_judge::<T, B, G>(*judge),
        set@.file == file@,
        set@.base_text == base_text@,
        set@.end == end,
        set@.calc == *calc,
        set@.judge == *judge,
        *sampler == sampler_of(set@.params),
        run.consistent(),
        run.least() == set@.params.min_tokens_before_end,
        run.prompt_width() == set@.prompt.cols,
        here@.state == old(state)@,
    ensures
        final(state).ready(),
        same_model(final(state)@, old(state)@),
        match r {
            Ok(p) => set@.moves_on(
                bias@,
                input@,
                run.generated().len(),
                old(rng).state,
                here@,
                (Moment { state: final(state)@, step: p.0, token: p.1, rng: final(rng).state }),
            ),
            Err(e) => set@.move_fails(bias@, input@, here@, e@),
        },
{
    reveal(Setting::moves_on);
    reveal(Setting::move_fails);
    let next = match state.step(file, input, base_text, calc) {
        Err(e) => {
            return Err(e);
        },
        Ok(v) => v,
    };
    let barred: bool = run.blocks_end(state.n_past());
    match sample_semantic_token(
        next.logits.as_slice(),
        bias,
        end,
        barred,
        sampler,
        rng,
        calc,
        judge,
    ) {
        Err(e) => {
            assert(here@.state.gives(set@.file, input@, set@.calc, next, state@.cache));
            Err(e)
        },
        Ok(t) => Ok((next, t)),
    }
}

/// Generates the codes of speech.
pub fn generate_codes<
    T: Copy,
    F: Fn(Op, T, T, T) -> T,
    B: Fn(T) -> u32,
    G: Fn(Relation, T, T) -> bool,
>(
    state: &mut SlowArState<T>,
    file: &[u8],
    tokenizer: &S2TokenizerConfig,
    graph: &DualArGraphSpec,
    prompt: &PromptTensor,
    params: &GenerateParams,
    fast_weights: &FastArValues<T>,
    rng: &mut SeededRng,
    base_text: &str,
    calc: &Calc<T, F>,
    judge: &Judge<B, G>,
) -> (r: Result<GenerateCodesResult, InferError>)
    requires
        old(state).ready(),
        calc.works(),
        can_judge::<T, B, G>(*judge),
        graph.num_codebooks < u32::MAX,
        graph.num_codebooks < usize::MAX,
    ensures
        final(state).ready(),
        same_model(final(state)@, old(state)@),
        ({
            let set = Setting {
                file: file@,
                base_text: base_text@,
                graph: *graph,
                end: tokenizer.im_end_id,
                params: *params,
                prompt: *prompt,
                calc: *calc,
                judge: *judge,
            };
            match r {
                Ok(v) => exists|frames: Seq<Seq<u32>>, last: Moment<T>|
                    {
                        &&& #[trigger] set.speaks(
                            *fast_weights,
                            old(state)@,
                            old(rng).state,
                            frames,
                            last,
                        )
                        &&& final(state)@ == last.state
                        &&& final(rng).state == last.rng
                        &&& v.num_codebooks == books_of(*graph)
                        &&& v.n_frames == frames.len()
                        &&& v.codes@ == code_table(frames, books_of(*graph) as nat, frames.len())
                        &&& forall|op: SlowArProfileOp|
                            #[trigger] time_in(v.slow_ar_profile, op) >= time_in(
                                final(state).time_spent(),
                                op,
                            )
                    },
                Err(e) => set.speech_fails(*fast_weights, old(state)@, old(rng).state, e@),
            }
        }),
{
    let ghost set = Setting {
        file: file@,
        base_text: base_text@,
        graph: *graph,
        end: tokenizer.im_end_id,
        params: *params,
        prompt: *prompt,
        calc: *calc,
        judge: *judge,
    };
    let ghost s0 = state@;
    let ghost rng0 = rng.state;
    let end: u32 = tokenizer.im_end_id;
    let (first_step, bias) = match begin::<T, F, B, G>(
        state,
        file,
        prompt,
        graph,
        end,
        base_text,
        calc,
        Ghost(set),
    ) {
        Err(e) => {
            return Err(e);
        },
        Ok(p) => p,
    };
    let mut profile: SlowArDecodeProfile = state.decode_profile();
    let mut run = match CodesRun::new(*graph, tokenizer, params, prompt.cols) {
        Err(e) => {
            proof {
                let fresh = choose|fresh: SlowStateView<T>|
                    #[trigger] set.is_fresh(s0, fresh) && set.begins(fresh, state@, first_step);
                assert(set.is_fresh(s0, fresh) && set.begins(fresh, state@, first_step));
            }
            return Err(e);
        },
        Ok(v) => v,
    };
    let sampler = make_sampler(params);
    let mut step = first_step;
    let barred: bool = blocks_im_end(0, params.min_tokens_before_end);
    let mut token: u32 = match sample_semantic_token(
        step.logits.as_slice(),
        bias.as_slice(),
        end,
        barred,
        &sampler,
        rng,
        calc,
        judge,
    ) {
        Err(e) => {
            assert(false);
            return Err(e);
        },
        Ok(t) => t,
    };
    let ghost mut frames: Seq<Seq<u32>> = Seq::empty();
    let ghost mut moments: Seq<Moment<T>> = seq![
        Moment { state: state@, step, token, rng: rng.state },
    ];
    assert(set.starts(s0, rng0, bias@, moments[0])) by {
        reveal(Setting::starts);
    }
    loop
        invariant
            calc.works(),
            can_judge::<T, B, G>(*judge),
            graph.num_codebooks < u32::MAX,
            graph.num_codebooks < usize::MAX,
            state.ready(),
            same_model(state@, old(state)@),
            s0 == old(state)@,
            rng0 == old(rng).state,
            sampler == sampler_of(*params),
            end == tokenizer.im_end_id,
            set == (Setting {
                file: file@,
                base_text: base_text@,
                graph: *graph,
                end: tokenizer.im_end_id,
                params: *params,
                prompt: *prompt,
                calc: *calc,
                judge: *judge,
            }),
            run.consistent(),
            run.generated() == frames,
            run.model() == *graph,
            run.room() == params.max_new_tokens,
            run.end_token() == end,
            run.least() == params.min_tokens_before_end,
            run.prompt_width() == prompt.cols,
            set.frames_lead(*fast_weights, bias@, frames, moments),
            set.starts(s0, rng0, bias@, moments[0]),
            moments.last() == (Moment { state: state@, step, token, rng: rng.state }),
            forall|op: SlowArProfileOp|
                #[trigger] time_in(profile, op) >= time_in(state.time_spent(), op),
        ensures
            !set.goes_on(moments.last(), frames.len()),
        decreases params.max_new_tokens - frames.len(),
    {
        let code: u32 = match run.next_frame(token) {
            None => {
                break;
            },
            Some(c) => c,
        };
        let ghost here = moments.last();
        let (next, then_token, ids) = match speak_frame(
            state,
            file,
            &mut run,
            &step,
            token,
            code,
            graph,
            fast_weights,
            &sampler,
            bias.as_slice(),
            end,
            rng,
            base_text,
            calc,
            judge,
            Ghost(set),
        ) {
            Err(e) => {
                return Err(e);
            },
            Ok(p) => p,
        };
        profile.add_assign(state.decode_profile());
        token = then_token;
        proof {
            let then = Moment { state: state@, step: next, token, rng: rng.state };
            lemma_one_more_frame(set, *fast_weights, bias@, frames, moments, ids@, then);
            frames = frames.push(ids@);
            moments = moments.push(then);
        }
        step = next;
    }
    let out = run.finish(profile);
    proof {
        assert(set.frames_lead(*fast_weights, bias@, frames, moments));
        assert(set.speaks(*fast_weights, s0, rng0, frames, moments.last()));
    }
    Ok(out)
}

// ---------------------------------------------------------------------
// Speech tokens alone
// ---------------------------------------------------------------------

impl<T: Copy, F: Fn(Op, T, T, T) -> T, B: Fn(T) -> u32, G: Fn(Relation, T, T) -> bool> Setting<
    T,
    F,
    B,
    G,
> {
    /// Whether tokens lead from moment to moment, each taken in without the codes of a frame.
    pub open spec fn tokens_lead(self, bias: Seq<T>, moments: Seq<Moment<T>>) -> bool {
        &&& moments.len() > 0
        &&& forall|i: int|
            0 <= i < moments.len() - 1 ==> self.token_leads(
                bias,
                i as nat,
                #[trigger] moments[i],
                moments[i + 1],
            )
    }

    /// Whether one token leads from a moment to the next.
    pub open spec fn token_leads(self, bias: Seq<T>, count: nat, a: Moment<T>, b: Moment<T>)
        -> bool {
        &&& self.goes_on(a, count)
        &&& step_error(a.token, None, self.graph) is None
        &&& self.moves_on(bias, step_input(a.token, None, self.graph), count, a.rng, a, b)
    }

    /// How taking in the next token can fail.
    pub open spec fn token_stops(self, bias: Seq<T>, count: nat, a: Moment<T>, e: ErrorView)
        -> bool {
        &&& self.goes_on(a, count)
        &&& match step_error(a.token, None, self.graph) {
            Some(found) => e == found,
            None => self.move_fails(bias, step_input(a.token, None, self.graph), a, e),
        }
    }

    /// How a run that generates tokens alone can fail: on the prompt, or at some token.
    pub open spec fn tokens_fail(self, s: SlowStateView<T>, rng: u64, e: ErrorView) -> bool {
        ||| self.begin_fails(s, e)
        ||| exists|bias: Seq<T>, moments: Seq<Moment<T>>|
            {
                &&& #[trigger] self.tokens_lead(bias, moments)
                &&& self.starts(s, rng, bias, moments[0])
                &&& self.token_stops(
                    bias,
                    (moments.len() - 1) as nat,
                    moments.last(),
                    e,
                )
            }
    }
}

/// The tokens of moments.
pub open spec fn tokens_of<T>(moments: Seq<Moment<T>>) -> Seq<u32> {
    moments.map_values(|m: Moment<T>| m.token)
}

proof fn lemma_one_more_token<
    T: Copy,
    F: Fn(Op, T, T, T) -> T,
    B: Fn(T) -> u32,
    G: Fn(Relation, T, T) -> bool,
>(set: Setting<T, F, B, G>, bias: Seq<T>, moments: Seq<Moment<T>>, next: Moment<T>)
    requires
        set.tokens_lead(bias, moments),
        set.token_leads(bias, (moments.len() - 1) as nat, moments.last(), next),
    ensures
        set.tokens_lead(bias, moments.push(next)),
        tokens_of(moments.push(next)) == tokens_of(moments).push(next.token),
{
    let longer = moments.push(next);
    assert forall|i: int| 0 <= i < longer.len() - 1 implies set.token_leads(
        bias,
        i as nat,
        #[trigger] longer[i],
        longer[i + 1],
    ) by {
        assert(longer[i] == moments[i]);
        if i < moments.len() - 1 {
            assert(longer[i + 1] == moments[i + 1]);
        }
    }
    assert(tokens_of(longer) =~= tokens_of(moments).push(next.token));
}

fn token_next<
    T: Copy,
    F: Fn(Op, T, T, T) -> T,
    B: Fn(T) -> u32,
    G: Fn(Relation, T, T) -> bool,
>(
    state: &mut SlowArState<T>,
    file: &[u8],
    input: &[i32],
    bias: &[T],
    run: &SemanticRun,
    end: u32,
    sampler: &SamplerParams,
    rng: &mut SeededRng,
    base_text: &str,
    calc: &Calc<T, F>,
    judge: &Judge<B, G>,
    set: Ghost<Setting<T, F, B, G>>,
    here: Ghost<Moment<T>>,
) -> (r: Result<(SlowArStepResult<T>, u32), InferError>)
    requires
        old(state).ready(),
        calc.works(),
        can_judge::<T, B, G>(*judge),
        set@.file == file@,
        set@.base_text == base_text@,
        set@.end == end,
        set@.calc == *calc,
        set@.judge == *judge,
        *sampler == sampler_of(set@.params),
        run.generated().len() > 0,
        run.least() == set@.params.min_tokens_before_end,
        run.prompt_width() == set@.prompt.cols,
        here@.state == old(state)@,
    ensures
        final(state).ready(),
        same_model(final(state)@, old(state)@),
        match r {
            Ok(p) => set@.moves_on(
                bias@,
                input@,
                (run.generated().len() - 1) as nat,
                old(rng).state,
                here@,
                (Moment { state: final(state)@, step: p.0, token: p.1, rng: final(rng).state }),
            ),
            Err(e) => set@.move_fails(bias@, input@, here@, e@),
        },
{
    reveal(Setting::moves_on);
    reveal(Setting::move_fails);
    let next = match state.step(file, input, base_text, calc) {
        Err(e) => {
            return Err(e);
        },
        Ok(v) => v,
    };
    let barred: bool = run.blocks_end(state.n_past());
    match sample_semantic_token(
        next.logits.as_slice(),
        bias,
        end,
        barred,
        sampler,
        rng,
        calc,
        judge,
    ) {
        Err(e) => {
            assert(here@.state.gives(set@.file, input@, set@.calc, next, state@.cache));
            Err(e)
        },
        Ok(t) => Ok((next, t)),
    }
}

/// Generates the tokens of speech, without the codes of its frames.
pub fn generate_semantic_tokens<
    T: Copy,
    F: Fn(Op, T, T, T) -> T,
    B: Fn(T) -> u32,
    G: Fn(Relation, T, T) -> bool,
>(
    state: &mut SlowArState<T>,
    file: &[u8],
    tokenizer: &S2TokenizerConfig,
    graph: &DualArGraphSpec,
    prompt: &PromptTensor,
    params: &GenerateParams,
    rng: &mut SeededRng,
    base_text: &str,
    calc: &Calc<T, F>,
    judge: &Judge<B, G>,
) -> (r: Result<GenerateSemanticResult, InferError>)
    requires
        old(state).ready(),
        calc.works(),
        can_judge::<T, B, G>(*judge),
        1 <= graph.num_codebooks < u32::MAX,
        graph.num_codebooks < usize::MAX,
    ensures
        final(state).ready(),
        same_model(final(state)@, old(state)@),
        ({
            let set = Setting {
                file: file@,
                base_text: base_text@,
                graph: *graph,
                end: tokenizer.im_end_id,
                params: *params,
                prompt: *prompt,
                calc: *calc,
                judge: *judge,
            };
            match r {
                Ok(v) => exists|bias: Seq<T>, moments: Seq<Moment<T>>|
                    {
                        &&& #[trigger] set.tokens_lead(bias, moments)
                        &&& set.starts(old(state)@, old(rng).state, bias, moments[0])
                        &&& !set.goes_on(moments.last(), (moments.len() - 1) as nat)
                        &&& final(state)@ == moments.last().state
                        &&& final(rng).state == moments.last().rng
                        &&& v.token_ids@ == tokens_of(moments)
                    },
                Err(e) => set.tokens_fail(old(state)@, old(rng).state, e@),
            }
        }),
{
    let ghost set = Setting {
        file: file@,
        base_text: base_text@,
        graph: *graph,
        end: tokenizer.im_end_id,
        params: *params,
        prompt: *prompt,
        calc: *calc,
        judge: *judge,
    };
    let ghost s0 = state@;
    let ghost rng0 = rng.state;
    let end: u32 = tokenizer.im_end_id;
    let (first_step, bias) = match begin::<T, F, B, G>(
        state,
        file,
        prompt,
        graph,
        end,
        base_text,
        calc,
        Ghost(set),
    ) {
        Err(e) => {
            return Err(e);
        },
        Ok(p) => p,
    };
    let sampler = make_sampler(params);
    let barred: bool = blocks_im_end(0, params.min_tokens_before_end);
    let first: u32 = match sample_semantic_token(
        first_step.logits.as_slice(),
        bias.as_slice(),
        end,
        barred,
        &sampler,
        rng,
        calc,
        judge,
    ) {
        Err(e) => {
            assert(false);
            return Err(e);
        },
        Ok(t) => t,
    };
    let mut run = SemanticRun::new(*graph, tokenizer, params, prompt.cols, first);
    let ghost mut moments: Seq<Moment<T>> = seq![
        Moment { state: state@, step: first_step, token: first, rng: rng.state },
    ];
    proof {
        assert(set.starts(s0, rng0, bias@, moments[0])) by {
            reveal(Setting::starts);
        }
        assert(run.generated() =~= tokens_of(moments));
    }
    loop
        invariant
            calc.works(),
            can_judge::<T, B, G>(*judge),
            1 <= graph.num_codebooks < u32::MAX,
            graph.num_codebooks < usize::MAX,
            state.ready(),
            same_model(state@, old(state)@),
            s0 == old(state)@,
            rng0 == old(rng).state,
            sampler == sampler_of(*params),
            end == tokenizer.im_end_id,
            set == (Setting {
                file: file@,
                base_text: base_text@,
                graph: *graph,
                end: tokenizer.im_end_id,
                params: *params,
                prompt: *prompt,
                calc: *calc,
                judge: *judge,
            }),
            run.generated() == tokens_of(moments),
            run.model() == *graph,
            run.room() == params.max_new_tokens,
            run.end_token() == end,
            run.least() == params.min_tokens_before_end,
            run.prompt_width() == prompt.cols,
            set.tokens_lead(bias@, moments),
            set.starts(s0, rng0, bias@, moments[0]),
            moments.last().state == state@,
            moments.last().rng == rng.state,
            moments.len() - 1 <= params.max_new_tokens,
        ensures
            !set.goes_on(moments.last(), (moments.len() - 1) as nat),
        decreases params.max_new_tokens + 1 - moments.len(),
    {
        let ghost here = moments.last();
        assert(run.generated().last() == here.token);
        let input = match run.next_input() {
            None => {
                break;
            },
            Some(Err(e)) => {
                assert(set.token_stops(bias@, (moments.len() - 1) as nat, here, e@));
                return Err(e);
            },
            Some(Ok(v)) => v,
        };
        match token_next(
            state,
            file,
            input.as_slice(),
            bias.as_slice(),
            &run,
            end,
            &sampler,
            rng,
            base_text,
            calc,
            judge,
            Ghost(set),
            Ghost(here),
        ) {
            Err(e) => {
                assert(set.token_stops(bias@, (moments.len() - 1) as nat, here, e@));
                return Err(e);
            },
            Ok((next, token)) => {
                proof {
                    let then = Moment { state: state@, step: next, token, rng: rng.state };
                    assert(set.token_leads(bias@, (moments.len() - 1) as nat, here, then));
                    lemma_one_more_token(set, bias@, moments, then);
                    moments = moments.push(then);
                }
                run.take_token(token);
            },
        }
    }
    assert(set.tokens_lead(bias@, moments));
    Ok(run.finish())
}

/// Generates the first frame of speech.
pub fn generate_fast_ar_first_frame<
    T: Copy,
    F: Fn(Op, T, T, T) -> T,
    B: Fn(T) -> u32,
    G: Fn(Relation, T, T) -> bool,
>(
    state: &mut SlowArState<T>,
    file: &[u8],
    tokenizer: &S2TokenizerConfig,
    graph: &DualArGraphSpec,
    prompt: &PromptTensor,
    params: &GenerateParams,
    fast_weights: &FastArValues<T>,
    rng: &mut SeededRng,
    base_text: &str,
    calc: &Calc<T, F>,
    judge: &Judge<B, G>,
) -> (r: Result<FastArFirstFrameResult<T>, InferError>)
    requires
        old(state).ready(),
        calc.works(),
        can_judge::<T, B, G>(*judge),
    ensures
        final(state).ready(),
        same_model(final(state)@, old(state)@),
        ({
            let set = Setting {
                file: file@,
                base_text: base_text@,
                graph: *graph,
                end: tokenizer.im_end_id,
                params: *params,
                prompt: *prompt,
                calc: *calc,
                judge: *judge,
            };
            match r {
                Ok(v) => exists|bias: Seq<T>, first: Moment<T>|
                    {
                        &&& #[trigger] set.starts(old(state)@, old(rng).state, bias, first)
                        &&& first.state == final(state)@
                        &&& set.gives_frame(
                            *fast_weights,
                            first,
                            v.codebook_ids@,
                            final(rng).state,
                        )
                        &&& v.prompt_cols == prompt.cols
                        &&& v.main_token_id == first.token
                        &&& v.slow_hidden@ == first.step.hidden@
                    },
                Err(e) => set.begin_fails(old(state)@, e@) || exists|
                    bias: Seq<T>,
                    first: Moment<T>,
                |
                    {
                        &&& #[trigger] set.starts(old(state)@, old(rng).state, bias, first)
                        &&& frame_fails(
                            first.step.hidden@,
                            semantic_code(first.token, *graph),
                            *graph,
                            *fast_weights,
                            sampler_of(*params),
                            base_text@,
                            *calc,
                            *judge,
                            first.rng,
                            e@,
                            final(rng).state,
                        )
                    },
            }
        }),
{
    let ghost set = Setting {
        file: file@,
        base_text: base_text@,
        graph: *graph,
        end: tokenizer.im_end_id,
        params: *params,
        prompt: *prompt,
        calc: *calc,
        judge: *judge,
    };
    let ghost s0 = state@;
    let ghost rng0 = rng.state;
    let end: u32 = tokenizer.im_end_id;
    let (step, bias) = match begin::<T, F, B, G>(
        state,
        file,
        prompt,
        graph,
        end,
        base_text,
        calc,
        Ghost(set),
    ) {
        Err(e) => {
            return Err(e);
        },
        Ok(p) => p,
    };
    let sampler = make_sampler(params);
    let barred: bool = blocks_im_end(0, params.min_tokens_before_end);
    let token: u32 = match sample_semantic_token(
        step.logits.as_slice(),
        bias.as_slice(),
        end,
        barred,
        &sampler,
        rng,
        calc,
        judge,
    ) {
        Err(e) => {
            assert(false);
            return Err(e);
        },
        Ok(t) => t,
    };
    let ghost first = Moment { state: state@, step, token, rng: rng.state };
    assert(set.starts(s0, rng0, bias@, first)) by {
        reveal(Setting::starts);
    }
    let code: u32 = semantic_to_codebook_id(token, graph);
    match generate_codebooks_for_semantic(
        step.hidden.as_slice(),
        code,
        graph,
        fast_weights,
        &sampler,
        rng,
        base_text,
        calc,
        judge,
    ) {
        Err(e) => Err(e),
        Ok(ids) => {
            assert(set.gives_frame(*fast_weights, first, ids@, rng.state)) by {
                reveal(Setting::gives_frame);
            }
            Ok(
                FastArFirstFrameResult {
                    prompt_cols: prompt.cols,
                    main_token_id: token,
                    slow_hidden: step.hidden,
                    codebook_ids: ids,
                },
            )
        },
    }
}

} // verus!
