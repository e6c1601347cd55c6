//! Which inputs are refused, and which are not.
use crate::attention::{
    cache_slot_error, gqa_error, rope_error, write_error, CacheView, GqaAttentionShape,
};
use crate::backend::{heads_norm_error, linear_error, norm_error};
use crate::conv::{agree_error, frames_error};
use crate::error::ErrorView;
use crate::generate::{frame_error, step_error};
use crate::graph::DualArGraphSpec;
use crate::pipeline::pair_error;
use crate::prompt::{has_reference, prompt_codes_of, prompt_error, transpose_error};
use crate::prompt::{PromptBuildOptions, PromptTensor};
use crate::rvq_codes::CodecValues;
use crate::rvq_laws::{are_shaped, book_size};
use crate::sampling::bias_error;
use crate::slow_embed::count_error;
use crate::slow_run::range_error;
use crate::slow_sequence::first_of;
use crate::slow_state::SlowStateView;
use crate::tensor::{index_error, lookup_error, matvec_error};
use crate::transpose::depthwise_error;
use vstd::prelude::*;

verus! {

/// Nothing is wrong with a list exactly where nothing is wrong with any of its items, and what is
/// wrong with it is what is wrong with the first item that has something wrong.
pub proof fn first_refusal_counts(f: spec_fn(int) -> Option<ErrorView>, i: int, n: int)
    ensures
        first_of(f, i, n) is None <==> forall|k: int| i <= k < n ==> (#[trigger] f(k)) is None,
        first_of(f, i, n) is Some ==> exists|k: int|
            {
                &&& i <= k < n
                &&& #[trigger] f(k) == first_of(f, i, n)
                &&& forall|j: int| i <= j < k ==> (#[trigger] f(j)) is None
            },
    decreases n - i,
{
    if i < n {
        first_refusal_counts(f, i + 1, n);
        match f(i) {
            Some(e) => {
                assert(f(i) == first_of(f, i, n));
            },
            None => {
                if first_of(f, i, n) is Some {
                    let k = choose|k: int|
                        {
                            &&& i + 1 <= k < n
                            &&& #[trigger] f(k) == first_of(f, i + 1, n)
                            &&& forall|j: int| i + 1 <= j < k ==> (#[trigger] f(j)) is None
                        };
                    assert(f(k) == first_of(f, i, n));
                }
            },
        }
    }
}

/// A lookup is refused where the table does not hold as many rows as it says, or an index lies
/// outside it, and not otherwise.
pub proof fn lookups_stay_inside_their_table(
    weight: nat,
    width: usize,
    rows: usize,
    indices: Seq<u32>,
)
    ensures
        lookup_error(weight, width, rows, indices) is None <==> weight == width * rows && weight
            <= usize::MAX && forall|k: int|
            0 <= k < indices.len() ==> #[trigger] indices[k] < rows,
{
    lemma_indices(rows, indices, 0);
}

proof fn lemma_indices(rows: usize, indices: Seq<u32>, i: int)
    requires
        0 <= i,
    ensures
        index_error(rows, indices, i) is None <==> forall|k: int|
            i <= k < indices.len() ==> #[trigger] indices[k] < rows,
    decreases indices.len() - i,
{
    if i < indices.len() {
        lemma_indices(rows, indices, i + 1);
    }
}

/// A product with a table is refused unless the vector is as long as a row, and the table holds all
/// rows.
pub proof fn tables_fit_their_vectors(
    input: nat,
    weight: nat,
    input_dim: usize,
    output_dim: usize,
)
    ensures
        linear_error(input, weight, input_dim, output_dim) is None <==> input == input_dim && weight
            == input_dim * output_dim && weight <= usize::MAX,
        matvec_error(input, weight, input_dim, output_dim) is None <==> input == input_dim && weight
            == input_dim * output_dim * 2 && weight <= usize::MAX && input_dim * 2 <= usize::MAX,
{
}

/// A norm is refused where there is nothing to norm, or the weights are not as many as the values. A
/// norm by heads is refused unless the values make up whole heads.
pub proof fn norms_fit_their_values(input: nat, weight: nat, head_dim: usize)
    ensures
        norm_error(input, weight) is None <==> input > 0 && input == weight,
        heads_norm_error(input, weight, head_dim) is None <==> head_dim > 0 && input % (
        head_dim as nat) == 0 && (input == 0 || weight == head_dim),
{
}

/// Turning values is refused unless they make up whole heads of an even width, and the base is
/// above zero.
pub proof fn turned_values_make_up_heads(
    size: nat,
    head_dim: usize,
    base: u32,
    base_text: Seq<char>,
)
    ensures
        rope_error(size, head_dim, base, base_text) is None <==> head_dim > 0 && head_dim % 2 == 0
            && size % (head_dim as nat) == 0 && base != 0 && !(0x8000_0000 <= base <= 0xff80_0000),
{
}

/// Attention is refused unless heads share keys evenly, and queries, keys and values have the lengths
/// of their heads and tokens.
pub proof fn attention_fits_its_heads(query: nat, key: nat, value: nat, s: GqaAttentionShape)
    ensures
        gqa_error(query, key, value, s) is None <==> {
            &&& s.head_count_kv > 0
            &&& s.head_count % s.head_count_kv == 0
            &&& s.head_dim > 0
            &&& s.token_count > 0
            &&& query == s.head_count * s.head_dim
            &&& query <= usize::MAX
            &&& s.token_count * s.head_count_kv <= usize::MAX
            &&& key == (s.token_count * s.head_count_kv) * s.head_dim
            &&& key <= usize::MAX
            &&& value == key
        },
{
}

/// A token is written exactly where the cache has it, and both its key and its value are as wide as
/// the cache. Tokens are read exactly where the cache has so many.
pub proof fn tokens_fit_their_cache<T>(
    c: CacheView<T>,
    layer: usize,
    token: usize,
    key: nat,
    value: nat,
)
    ensures
        write_error(c, layer, token, key, value) is None <==> {
            &&& key == c.head_dim * c.head_count_kv
            &&& value == key
            &&& layer < c.block_count
            &&& token < c.max_seq_len
            &&& c.head_count_kv > 0
            &&& c.head_dim > 0
        },
        cache_slot_error(c, layer, token) is None <==> {
            &&& token <= c.max_seq_len
            &&& layer < c.block_count
            &&& token > 0 ==> c.head_count_kv > 0 && c.head_dim > 0
        },
{
}

/// Frames are refused unless there are as many values as frames times channels, and lists that are to
/// agree unless they are equally long.
pub proof fn frames_have_all_their_values(
    name: Seq<char>,
    found: nat,
    frames: nat,
    channels: nat,
    first: Seq<char>,
    second: Seq<char>,
)
    ensures
        frames_error(name, found, frames, channels) is None <==> found == frames * channels && found
            <= usize::MAX,
        agree_error(name, first, frames, second, channels) is None <==> frames == channels,
{
}

/// A convolution by channel is refused unless it has one kernel and one bias for each channel.
pub proof fn channels_have_their_kernels(
    input: nat,
    frames: nat,
    channels: nat,
    kernel: nat,
    weight: nat,
    bias: nat,
)
    ensures
        depthwise_error(input, frames, channels, kernel, weight, bias) is None <==> input == frames
            * channels && input <= usize::MAX && weight == kernel * channels && weight <= usize::MAX
            && bias == channels,
{
}

/// A run is refused where there is no token, where the numbers do not make up whole tokens, or where
/// more tokens would be kept than there is room for.
pub proof fn runs_have_room_for_their_tokens<T: Copy>(s: SlowStateView<T>, count: nat)
    ensures
        s.input_error(count) is None <==> {
            &&& count % ((s.graph.num_codebooks + 1) as nat) == 0
            &&& count > 0
            &&& s.n_past + count as int / (s.graph.num_codebooks + 1) <= s.max_seq_len
        },
        count_error(count, s.graph) is None <==> count % ((s.graph.num_codebooks + 1) as nat) == 0,
{
    let w = s.graph.num_codebooks + 1;
    let n = count as int / w;
    assert(count == w * n + count as int % w) by (nonlinear_arith)
        requires
            w > 0,
            n == count as int / w,
    ;
    if count as int % w == 0 {
        assert(n == 0 ==> w * n == 0) by (nonlinear_arith);
        assert(n > 0 ==> w * n > 0) by (nonlinear_arith)
            requires
                w > 0,
        ;
        assert(n >= 0) by (nonlinear_arith)
            requires
                n == count as int / w,
                w > 0,
        ;
    }
}

/// Layers are refused where there are none, or where they reach beyond those that there are.
pub proof fn layers_are_among_those_there_are(first: usize, count: usize, available: nat)
    ensures
        range_error(first, count, available) is None <==> count > 0 && first + count <= available
            && first + count <= usize::MAX,
{
}

/// A token is refused where it is too large, where a speech token has not one code for each
/// codebook, or where one of these is too large. Without codes it is refused where it lies beyond
/// the codebook.
pub proof fn tokens_go_in_with_all_their_codes(token: u32, ids: Seq<u32>, g: DualArGraphSpec)
    ensures
        step_error(token, Some(ids), g) is None <==> token <= i32::MAX && (g.semantic_begin_id
            <= token <= g.semantic_end_id ==> ids.len() == g.num_codebooks && forall|i: int|
            0 <= i < ids.len() ==> #[trigger] ids[i] <= i32::MAX),
        step_error(token, None, g) is None <==> token <= i32::MAX && (g.semantic_begin_id <= token
            <= g.semantic_end_id ==> token < g.semantic_begin_id + g.codebook_size),
        frame_error(token, ids, g) is None ==> step_error(token, Some(ids), g) is None,
{
}

/// Logits and a bias are refused unless they are equally many.
pub proof fn biases_fit_their_logits(logits: nat, bias: nat)
    ensures
        bias_error(logits, bias) is None <==> logits == bias,
{
}

/// A reference is refused where it has a text without codes or codes without a text, or where the
/// token of a code does not fit.
pub proof fn references_have_text_and_codes(o: PromptBuildOptions, text: bool, codes: bool)
    ensures
        prompt_error(o) is None <==> (o.prompt_text is Some <==> o.prompt_codes is Some) && (
        has_reference(o) ==> forall|t: int|
            0 <= t < prompt_codes_of(o)->0.cols ==> #[trigger] prompt_codes_of(o)->0.data@[t]
                + o.graph.semantic_begin_id <= u32::MAX),
        pair_error(text, codes) is None <==> (text <==> codes),
{
}

/// A prompt is refused unless it has rows, all its values, and none that is too large.
pub proof fn prompts_have_all_their_values(t: PromptTensor)
    ensures
        transpose_error(t) is None <==> {
            &&& t.rows > 0
            &&& t.data@.len() == t.rows as nat * t.cols as nat
            &&& t.data@.len() <= usize::MAX
            &&& forall|k: int| 0 <= k < t.data@.len() ==> #[trigger] t.data@[k] <= i32::MAX
        },
{
}

/// Codes are refused unless there is one for each codebook and each frame, and each lies inside its
/// codebook.
pub proof fn codes_lie_inside_their_codebook<T: Copy>(
    w: CodecValues<T>,
    codes: Seq<i32>,
    books: u32,
    frames: u32,
    c: int,
    f: int,
)
    requires
        are_shaped(w),
        w.codes_error(codes, books, frames) is None,
        0 <= c < books,
        0 <= f < frames,
    ensures
        books == w.residual_quantizers@.len() + 1,
        codes.len() == books * frames,
        0 <= codes[c * frames + f] < book_size(c),
{
    let all = w.lookup_errors(codes, frames as nat);
    first_refusal_counts(all, 0, frames as int);
    assert(all(f) is None);
    let one = w.frame_errors(codes, frames as nat, f);
    first_refusal_counts(one, 0, w.count() as int);
    assert(one(c) is None);
    let code = codes[c * frames + f];
    assert(w.code_error(code, c) is None);
    assert(seq![code as u32][0] == code as u32);
    lookups_stay_inside_their_table(
        w.quantizer(c).codebook_weight@.len(),
        8,
        crate::rvq_codes::code_count(c),
        seq![code as u32],
    );
}

} // verus!
