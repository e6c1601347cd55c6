//! What the logits of the next code come from.
use crate::backend::is_norm;
use crate::fast_ar::{FastArLayerShape, FastArLayerValues};
use crate::fast_run::{fast_input, is_fast_run, prefix_error, prefix_gives, FastArValues};
use crate::graph::{ArGraphSpec, DualArGraphSpec};
use crate::numeric::{is_linear, row, Calc, Op};
use crate::sums::{part, rows_lie_behind_each_other};
use vstd::prelude::*;

verus! {

/// The sizes of the fast layers are those of the model.
pub proof fn fast_shapes_are_the_models(g: ArGraphSpec)
    ensures
        ({
            let s = FastArLayerShape::of(g);
            &&& s.hidden_size == g.embedding_length as usize
            &&& s.feed_forward_size == g.feed_forward_length as usize
            &&& s.head_count == g.head_count as usize
            &&& s.head_count_kv == g.head_count_kv as usize
            &&& s.head_dim == g.head_dim as usize
            &&& s.rope_base == g.rope_freq_base
            &&& s.rms_norm_eps == g.rms_norm_eps
        }),
{
}

/// Whether a fast layer makes these tokens of those.
#[verifier::opaque]
pub open spec fn fast_layer_gives<T: Copy, F: Fn(Op, T, T, T) -> T>(
    layer: FastArLayerValues<T>,
    s: FastArLayerShape,
    calc: Calc<T, F>,
    before: Seq<Seq<T>>,
    given: Seq<Seq<T>>,
) -> bool {
    layer.is_layer(s, before, calc, given)
}

/// Whether these are the tokens along the fast layers: the hidden state that the slow transformer gave
/// and the rows of the codes so far, and what each of the first four layers makes of them in turn.
pub open spec fn is_fast_way<T: Copy, F: Fn(Op, T, T, T) -> T>(
    hidden: Seq<T>,
    codes: Seq<u32>,
    w: FastArValues<T>,
    s: FastArLayerShape,
    calc: Calc<T, F>,
    used: int,
    states: Seq<Seq<Seq<T>>>,
) -> bool {
    let width = s.hidden_size as int;
    &&& states.len() == used + 1
    &&& states[0].len() == codes.len() + 1
    &&& states[0][0] == hidden
    &&& forall|i: int|
        0 <= i < codes.len() ==> states[0][i + 1] == part(
            w.embeddings@,
            #[trigger] codes[i] * width,
            width,
        )
    &&& forall|k: int|
        0 <= k < used ==> fast_layer_gives(
            #[trigger] w.layers@[k],
            s,
            calc,
            states[k],
            states[k + 1],
        )
}

/// How many of so many layers work: all of them, or the first four.
pub open spec fn first_four(count: nat) -> int {
    if count < 4 {
        count as int
    } else {
        4
    }
}

/// Whether logits are those of a token: its norm, times every row of a table.
#[verifier::opaque]
pub open spec fn are_head_outputs<T: Copy, F: Fn(Op, T, T, T) -> T>(
    token: Seq<T>,
    norm: Seq<T>,
    eps: u32,
    table: Seq<T>,
    size: nat,
    calc: Calc<T, F>,
    logits: Seq<T>,
) -> bool {
    exists|normed: Seq<T>|
        is_norm(token, norm, eps, calc, normed) && #[trigger] is_linear(normed, table, calc, logits)
            && logits.len() == size
}

proof fn lemma_code_row<T>(
    hidden: nat,
    codes: Seq<u32>,
    graph: DualArGraphSpec,
    embeddings: Seq<T>,
    base_text: Seq<char>,
    i: int,
)
    requires
        prefix_error(hidden, codes, graph, embeddings.len(), base_text) is None,
        0 <= i < codes.len(),
    ensures
        ({
            let width = graph.fast.embedding_length as usize as int;
            row(embeddings, codes[i] as int, width) == part(embeddings, codes[i] * width, width)
        }),
{
    let h = graph.fast.embedding_length as usize;
    let width = h as int;
    crate::tensor::lemma_lookup_inside(h, 4096, codes, embeddings.len(), i);
    let c = codes[i] as int;
    crate::arith::lemma_rows_monotone(c + 1, 4096, width);
    crate::arith::lemma_next_row(c, width);
    vstd::arithmetic::mul::lemma_mul_is_commutative(width, 4096);
    rows_lie_behind_each_other(embeddings, c, width);
}

proof fn lemma_fast_counts<T: Copy, F: Fn(Op, T, T, T) -> T>(
    layers: Seq<FastArLayerValues<T>>,
    s: FastArLayerShape,
    calc: Calc<T, F>,
    states: Seq<Seq<Seq<T>>>,
    k: int,
)
    requires
        is_fast_run(layers, s, calc, states),
        0 <= k < states.len(),
    ensures
        states[k].len() == states[0].len(),
    decreases k,
{
    if k > 0 {
        lemma_fast_counts(layers, s, calc, states, k - 1);
        assert(layers[k - 1].is_layer(s, states[k - 1], calc, states[k - 1 + 1]));
    }
}

/// The logits of the next code are the output head applied to the hidden state at the place of the
/// newest code, behind all layers: that of the last code so far, or that which the slow transformer
/// gave where there is no code yet.
pub proof fn logits_come_from_the_newest_code<T: Copy, F: Fn(Op, T, T, T) -> T>(
    hidden: Seq<T>,
    codes: Seq<u32>,
    graph: DualArGraphSpec,
    w: FastArValues<T>,
    base_text: Seq<char>,
    calc: Calc<T, F>,
    logits: Seq<T>,
)
    requires
        prefix_gives(hidden, codes, graph, w, calc, logits),
        prefix_error(hidden.len(), codes, graph, w.embeddings@.len(), base_text) is None,
    ensures
        logits.len() == graph.codebook_size,
        exists|states: Seq<Seq<Seq<T>>>|
            {
                &&& #[trigger] is_fast_way(
                    hidden,
                    codes,
                    w,
                    FastArLayerShape::of(graph.fast),
                    calc,
                    first_four(w.layers@.len()),
                    states,
                )
                &&& states[first_four(w.layers@.len())].len() == codes.len() + 1
                &&& are_head_outputs(
                    states[first_four(w.layers@.len())][codes.len() as int],
                    w.norm@,
                    graph.fast.rms_norm_eps,
                    w.output@,
                    graph.codebook_size as nat,
                    calc,
                    logits,
                )
            },
{
    let s = FastArLayerShape::of(graph.fast);
    let width = s.hidden_size as int;
    let used = first_four(w.layers@.len());
    let states = choose|states: Seq<Seq<Seq<T>>>|
        {
            &&& #[trigger] is_fast_run(w.layers@, s, calc, states)
            &&& states.len() == crate::fast_run::used_layers(w.layers@.len()) + 1
            &&& states[0] == fast_input(hidden, codes, w.embeddings@, width)
            &&& crate::fast_run::are_fast_logits(
                w,
                s,
                graph.codebook_size,
                calc,
                states.last().last(),
                logits,
            )
        };
    assert forall|i: int| 0 <= i < codes.len() implies states[0][i + 1] == part(
        w.embeddings@,
        #[trigger] codes[i] * width,
        width,
    ) by {
        lemma_code_row(hidden.len(), codes, graph, w.embeddings@, base_text, i);
    }
    assert forall|k: int| 0 <= k < used implies fast_layer_gives(
        #[trigger] w.layers@[k],
        s,
        calc,
        states[k],
        states[k + 1],
    ) by {
        reveal(fast_layer_gives);
        let _ = states[k];
    }
    lemma_fast_counts(w.layers@, s, calc, states, used);
    assert(is_fast_way(hidden, codes, w, s, calc, used, states));
    assert(states.last().last() == states[used][codes.len() as int]);
    assert(are_head_outputs(
        states[used][codes.len() as int],
        w.norm@,
        graph.fast.rms_norm_eps,
        w.output@,
        graph.codebook_size as nat,
        calc,
        logits,
    )) by {
        reveal(are_head_outputs);
    }
    assert(logits.len() == graph.codebook_size) by {
        reveal(are_head_outputs);
    }
}

/// Without layers, the logits behind a code are those of its row of the table of codes alone: the
/// hidden state that the slow transformer gave, and the codes before the last one, play no part.
pub proof fn last_code_decides_without_layers<T: Copy, F: Fn(Op, T, T, T) -> T>(
    hidden: Seq<T>,
    codes: Seq<u32>,
    graph: DualArGraphSpec,
    w: FastArValues<T>,
    base_text: Seq<char>,
    calc: Calc<T, F>,
    logits: Seq<T>,
)
    requires
        prefix_gives(hidden, codes, graph, w, calc, logits),
        prefix_error(hidden.len(), codes, graph, w.embeddings@.len(), base_text) is None,
        w.layers@.len() == 0,
    ensures
        ({
            let width = graph.fast.embedding_length as usize as int;
            are_head_outputs(
                if codes.len() == 0 {
                    hidden
                } else {
                    part(w.embeddings@, codes.last() * width, width)
                },
                w.norm@,
                graph.fast.rms_norm_eps,
                w.output@,
                graph.codebook_size as nat,
                calc,
                logits,
            )
        }),
{
    logits_come_from_the_newest_code(hidden, codes, graph, w, base_text, calc, logits);
    let s = FastArLayerShape::of(graph.fast);
    let states = choose|states: Seq<Seq<Seq<T>>>|
        {
            &&& #[trigger] is_fast_way(hidden, codes, w, s, calc, 0, states)
            &&& states[0].len() == codes.len() + 1
            &&& are_head_outputs(
                states[0][codes.len() as int],
                w.norm@,
                graph.fast.rms_norm_eps,
                w.output@,
                graph.codebook_size as nat,
                calc,
                logits,
            )
        };
    if codes.len() > 0 {
        let i = codes.len() - 1;
        assert(states[0][i + 1] == part(
            w.embeddings@,
            codes[i] * s.hidden_size as int,
            s.hidden_size as int,
        ));
    }
}

/// Without layers, two prefixes that end with the same code give the same logits, whatever the slow
/// transformer gave for each.
pub proof fn same_last_code_same_logits<T: Copy, F: Fn(Op, T, T, T) -> T>(
    hidden: Seq<T>,
    codes: Seq<u32>,
    other_hidden: Seq<T>,
    other_codes: Seq<u32>,
    graph: DualArGraphSpec,
    w: FastArValues<T>,
    base_text: Seq<char>,
    calc: Calc<T, F>,
    logits: Seq<T>,
    other: Seq<T>,
)
    requires
        prefix_gives(hidden, codes, graph, w, calc, logits),
        prefix_error(hidden.len(), codes, graph, w.embeddings@.len(), base_text) is None,
        prefix_gives(other_hidden, other_codes, graph, w, calc, other),
        prefix_error(
            other_hidden.len(),
            other_codes,
            graph,
            w.embeddings@.len(),
            base_text,
        ) is None,
        w.layers@.len() == 0,
        calc.settled(),
        codes.len() > 0,
        other_codes.len() > 0,
        codes.last() == other_codes.last(),
    ensures
        logits == other,
{
    last_code_decides_without_layers(hidden, codes, graph, w, base_text, calc, logits);
    last_code_decides_without_layers(
        other_hidden,
        other_codes,
        graph,
        w,
        base_text,
        calc,
        other,
    );
    let width = graph.fast.embedding_length as usize as int;
    lemma_one_output(
        part(w.embeddings@, codes.last() * width, width),
        w.norm@,
        graph.fast.rms_norm_eps,
        w.output@,
        graph.codebook_size as nat,
        calc,
        logits,
        other,
    );
}

proof fn lemma_one_output<T: Copy, F: Fn(Op, T, T, T) -> T>(
    token: Seq<T>,
    norm: Seq<T>,
    eps: u32,
    table: Seq<T>,
    size: nat,
    calc: Calc<T, F>,
    a: Seq<T>,
    b: Seq<T>,
)
    requires
        are_head_outputs(token, norm, eps, table, size, calc, a),
        are_head_outputs(token, norm, eps, table, size, calc, b),
        calc.settled(),
    ensures
        a == b,
{
    reveal(are_head_outputs);
    let p = choose|normed: Seq<T>|
        is_norm(token, norm, eps, calc, normed) && #[trigger] is_linear(normed, table, calc, a)
            && a.len() == size;
    let q = choose|normed: Seq<T>|
        is_norm(token, norm, eps, calc, normed) && #[trigger] is_linear(normed, table, calc, b)
            && b.len() == size;
    crate::settled::norm_is_settled(token, norm, eps, calc, p, q);
    crate::settled::linear_is_settled(p, table, calc, a, b);
}

} // verus!
