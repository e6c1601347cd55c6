//! Token numbers to hidden states.
use crate::arith::{lemma_next_row, lemma_rows_monotone};
use crate::error::{message, ErrorView, InferError};
use crate::gguf::{tensors_inside, GgufFile};
use crate::graph::DualArGraphSpec;
use crate::numeric::{row, Calc, Op};
use crate::sizes::{is_finding, or_else};
use crate::slow_layer::{is_zipped, zip_with};
use crate::slow_sequence::{first_of, lists};
use crate::slow_weights::{are_values, is_tensor, read_error, to_values};
use crate::tensor::{embedding_lookup_rows, f16_parts, lookup_error, F16TensorView, WideView};
use crate::text::{dec, dec_i64, dec_int, dec_usize, list_text, show_sizes, sizes};
use vstd::prelude::*;
use vstd::string::*;

verus! {

/// The tables that token numbers are looked up in.
#[derive(Debug)]
pub struct SlowArEmbeddingWeights {
    pub semantic: F16TensorView,
    pub codebook: F16TensorView,
}

/// What is wrong with the dimensions of the tables, if anything.
pub open spec fn embedding_dims_error(semantic: Seq<usize>, codebook: Seq<usize>) -> Option<
    ErrorView,
> {
    if semantic.len() != 2 {
        Some(message("embeddings.weight expected rank 2, got "@ + list_text(sizes(semantic))))
    } else if codebook.len() != 2 || codebook[0] != semantic[0] {
        Some(
            message(
                "codebook_embeddings.weight shape mismatch: semantic="@ + list_text(
                    sizes(semantic),
                ) + " codebook="@ + list_text(sizes(codebook)),
            ),
        )
    } else {
        None
    }
}

impl SlowArEmbeddingWeights {
    /// Whether the tables fit together.
    pub open spec fn fit(&self) -> bool {
        embedding_dims_error(self.semantic@.dimensions, self.codebook@.dimensions) is None
    }

    /// The tables of a model file.
    pub fn from_gguf(gguf: &GgufFile, file: &[u8]) -> (r: Result<
        SlowArEmbeddingWeights,
        InferError,
    >)
        requires
            tensors_inside(gguf@),
        ensures
            match r {
                Ok(w) => w.fit() && is_tensor(w.semantic, gguf@, file@, "embeddings.weight"@)
                    && is_tensor(w.codebook, gguf@, file@, "codebook_embeddings.weight"@),
                Err(e) => or_else(
                    read_error(gguf@, file@, "embeddings.weight"@),
                    or_else(
                        read_error(gguf@, file@, "codebook_embeddings.weight"@),
                        embedding_dims_error(
                            f16_parts(gguf@, file@, "embeddings.weight"@)->Ok_0.0,
                            f16_parts(gguf@, file@, "codebook_embeddings.weight"@)->Ok_0.0,
                        ),
                    ),
                ) == Some(e@),
            },
    {
        let semantic = match F16TensorView::from_gguf(gguf, file, "embeddings.weight") {
            Err(e) => {
                return Err(e);
            },
            Ok(t) => t,
        };
        let codebook = match F16TensorView::from_gguf(gguf, file, "codebook_embeddings.weight") {
            Err(e) => {
                return Err(e);
            },
            Ok(t) => t,
        };
        let weights = SlowArEmbeddingWeights { semantic, codebook };
        match weights.validate_dimensions() {
            Err(e) => Err(e),
            Ok(_) => Ok(weights),
        }
    }

    /// Checks that the tables fit together.
    pub fn validate_dimensions(&self) -> (r: Result<(), InferError>)
        ensures
            is_finding(
                r,
                embedding_dims_error(self.semantic@.dimensions, self.codebook@.dimensions),
            ),
    {
        let semantic = self.semantic.dimensions();
        if semantic.len() != 2 {
            let a = show_sizes(semantic);
            return Err(
                InferError::Message(
                    String::from_str("embeddings.weight expected rank 2, got ").concat(a.as_str()),
                ),
            );
        }
        let codebook = self.codebook.dimensions();
        if codebook.len() != 2 || codebook[0] != semantic[0] {
            let a = show_sizes(semantic);
            let b = show_sizes(codebook);
            return Err(
                InferError::Message(
                    String::from_str("codebook_embeddings.weight shape mismatch: semantic=").concat(
                        a.as_str(),
                    ).concat(" codebook=").concat(b.as_str()),
                ),
            );
        }
        Ok(())
    }
}

// ---------------------------------------------------------------------
// One token
// ---------------------------------------------------------------------

/// The row in which a code of a codebook stands.
pub open spec fn code_row(raw: i32, codebook: int, codebook_size: u32) -> Result<u32, ErrorView> {
    if raw < 0 {
        Err(message("codebook token must be non-negative, got "@ + dec_int(raw as int)))
    } else if codebook * codebook_size > u32::MAX {
        Err(message("codebook offset overflow"@))
    } else if raw + codebook * codebook_size > u32::MAX {
        Err(message("codebook embedding index overflow"@))
    } else {
        Ok((raw + codebook * codebook_size) as u32)
    }
}

fn code_row_of(raw: i32, codebook: u32, codebook_size: u32) -> (r: Result<u32, InferError>)
    ensures
        crate::error::infer_outcome(r, code_row(raw, codebook as int, codebook_size)),
{
    if raw < 0 {
        let a = dec_i64(raw as i64);
        return Err(
            InferError::Message(
                String::from_str("codebook token must be non-negative, got ").concat(a.as_str()),
            ),
        );
    }
    match codebook.checked_mul(codebook_size) {
        None => Err(InferError::text("codebook offset overflow")),
        Some(offset) => match (raw as u32).checked_add(offset) {
            None => Err(InferError::text("codebook embedding index overflow")),
            Some(n) => Ok(n),
        },
    }
}

/// What is wrong with each code of a token, if anything. `codes` are the numbers after the token's
/// own.
pub open spec fn code_errors(
    codes: Seq<i32>,
    graph: DualArGraphSpec,
    codebook: WideView,
) -> spec_fn(int) -> Option<ErrorView> {
    |k: int|
        match code_row(codes[k], k, graph.codebook_size) {
            Err(e) => Some(e),
            Ok(n) => lookup_error(
                codebook.values.len(),
                codebook.dimensions[0],
                codebook.dimensions[1],
                seq![n],
            ),
        }
}

/// Whether a token stands for speech.
pub open spec fn is_speech(token: i32, graph: DualArGraphSpec) -> bool {
    graph.semantic_begin_id <= token <= graph.semantic_end_id
}

/// What is wrong with a token, if anything. It is given with one number for each codebook.
pub open spec fn token_error(
    numbers: Seq<i32>,
    graph: DualArGraphSpec,
    semantic: WideView,
    codebook: WideView,
) -> Option<ErrorView> {
    if numbers[0] < 0 {
        Some(message("semantic token id must be non-negative, got "@ + dec_int(numbers[0] as int)))
    } else {
        or_else(
            lookup_error(
                semantic.values.len(),
                semantic.dimensions[0],
                semantic.dimensions[1],
                seq![numbers[0] as u32],
            ),
            if is_speech(numbers[0], graph) {
                first_of(
                    code_errors(numbers.skip(1), graph, codebook),
                    0,
                    graph.num_codebooks as int,
                )
            } else {
                None
            },
        )
    }
}

/// Whether these are the values in a row of a table.
pub open spec fn is_table_row<T: Copy, F: Fn(Op, T, T, T) -> T>(
    table: WideView,
    i: int,
    calc: Calc<T, F>,
    values: Seq<T>,
) -> bool {
    are_values(row(table.values, i, table.dimensions[0] as int), calc, values)
}

/// Whether `next` is `sum` with the row of a code added.
pub open spec fn adds_code<T: Copy, F: Fn(Op, T, T, T) -> T>(
    codes: Seq<i32>,
    k: int,
    graph: DualArGraphSpec,
    codebook: WideView,
    calc: Calc<T, F>,
    sum: Seq<T>,
    next: Seq<T>,
) -> bool {
    exists|values: Seq<T>|
        #[trigger] is_table_row(
            codebook,
            code_row(codes[k], k, graph.codebook_size)->Ok_0 as int,
            calc,
            values,
        ) && is_zipped(sum, values, Op::Plus, calc, next)
}

/// Whether these are the sums along the codes of a token, from zero on.
pub open spec fn code_sums<T: Copy, F: Fn(Op, T, T, T) -> T>(
    sums: Seq<Seq<T>>,
    codes: Seq<i32>,
    graph: DualArGraphSpec,
    codebook: WideView,
    calc: Calc<T, F>,
) -> bool {
    &&& sums.len() > 0
    &&& sums[0] == Seq::new(codebook.dimensions[0] as nat, |i: int| calc.zero)
    &&& forall|k: int|
        0 <= k < sums.len() - 1 ==> adds_code(
            codes,
            k,
            graph,
            codebook,
            calc,
            #[trigger] sums[k],
            sums[k + 1],
        )
}

/// Whether `out` is `hidden`, each value multiplied by the same factor.
pub open spec fn is_scaled<T: Copy, F: Fn(Op, T, T, T) -> T>(
    hidden: Seq<T>,
    factor: Op,
    calc: Calc<T, F>,
    out: Seq<T>,
) -> bool {
    exists|by: T|
        #[trigger] calc.gives(factor, calc.zero, calc.zero, calc.zero, by) && out.len()
            == hidden.len() && forall|i: int|
            0 <= i < hidden.len() ==> calc.gives(
                Op::Times,
                hidden[i],
                by,
                calc.zero,
                #[trigger] out[i],
            )
}

/// The factor that a token's hidden state is multiplied by: one over the root of the numbers for
/// each token where it stands for speech, else one.
pub open spec fn token_factor(token: i32, graph: DualArGraphSpec) -> Op {
    if is_speech(token, graph) {
        Op::RootOver((graph.num_codebooks + 1) as usize)
    } else {
        Op::Single(0x3f80_0000)
    }
}

/// Whether `sum` is a token's own row, with the rows of its codes where it stands for speech.
pub open spec fn is_token_sum<T: Copy, F: Fn(Op, T, T, T) -> T>(
    numbers: Seq<i32>,
    graph: DualArGraphSpec,
    semantic: WideView,
    codebook: WideView,
    calc: Calc<T, F>,
    sum: Seq<T>,
) -> bool {
    exists|own: Seq<T>|
        #[trigger] is_table_row(semantic, numbers[0] as int, calc, own) && if is_speech(
            numbers[0],
            graph,
        ) {
            exists|sums: Seq<Seq<T>>|
                #[trigger] code_sums(sums, numbers.skip(1), graph, codebook, calc) && sums.len()
                    == graph.num_codebooks + 1 && is_zipped(own, sums.last(), Op::Plus, calc, sum)
        } else {
            sum == own
        }
}

/// Whether `out` is the hidden state of a token.
pub open spec fn is_embedded<T: Copy, F: Fn(Op, T, T, T) -> T>(
    numbers: Seq<i32>,
    graph: DualArGraphSpec,
    semantic: WideView,
    codebook: WideView,
    calc: Calc<T, F>,
    out: Seq<T>,
) -> bool {
    exists|sum: Seq<T>|
        #[trigger] is_token_sum(numbers, graph, semantic, codebook, calc, sum) && if graph.scale_codebook_embeddings {
            is_scaled(sum, token_factor(numbers[0], graph), calc, out)
        } else {
            out == sum
        }
}

/// The row of a table that an index names, as values.
fn look_up<T: Copy, F: Fn(Op, T, T, T) -> T>(
    table: &F16TensorView,
    index: u32,
    calc: &Calc<T, F>,
) -> (r: Result<Vec<T>, InferError>)
    requires
        calc.works(),
        table@.dimensions.len() == 2,
    ensures
        match r {
            Ok(v) => lookup_error(
                table@.values.len(),
                table@.dimensions[0],
                table@.dimensions[1],
                seq![index],
            ) is None && is_table_row(table@, index as int, *calc, v@) && v@.len()
                == table@.dimensions[0],
            Err(e) => lookup_error(
                table@.values.len(),
                table@.dimensions[0],
                table@.dimensions[1],
                seq![index],
            ) == Some(e@),
        },
{
    let width: usize = table.dimensions()[0];
    let count: usize = table.dimensions()[1];
    let mut one: Vec<u32> = Vec::new();
    one.push(index);
    assert(one@ =~= seq![index]);
    match embedding_lookup_rows(table.values(), width, count, one.as_slice()) {
        Err(e) => Err(e),
        Ok(rows) => {
            proof {
                let ghost i = index as int;
                crate::tensor::lemma_lookup_inside(width, count, seq![index], table@.values.len(), 0);
                lemma_next_row(i, width as int);
                lemma_rows_monotone(i + 1, count as int, width as int);
                lemma_rows_monotone(0, i, width as int);
                vstd::arithmetic::mul::lemma_mul_is_commutative(width as int, count as int);
            }
            Ok(to_values(rows[0].as_slice(), calc))
        },
    }
}

fn add_codes<T: Copy, F: Fn(Op, T, T, T) -> T>(
    codes: &[i32],
    graph: &DualArGraphSpec,
    codebook: &F16TensorView,
    calc: &Calc<T, F>,
) -> (r: Result<(Vec<T>, Ghost<Seq<Seq<T>>>), InferError>)
    requires
        calc.works(),
        codebook@.dimensions.len() == 2,
        codes@.len() == graph.num_codebooks,
    ensures
        match r {
            Ok(p) => {
                &&& first_of(
                    code_errors(codes@, *graph, codebook@),
                    0,
                    graph.num_codebooks as int,
                ) is None
                &&& code_sums(p.1@, codes@, *graph, codebook@, *calc)
                &&& p.1@.len() == graph.num_codebooks + 1
                &&& p.1@.last() == p.0@
                &&& p.0@.len() == codebook@.dimensions[0]
            },
            Err(e) => first_of(
                code_errors(codes@, *graph, codebook@),
                0,
                graph.num_codebooks as int,
            ) == Some(e@),
        },
{
    let width: usize = codebook.dimensions()[0];
    let mut sum: Vec<T> = Vec::new();
    let mut i: usize = 0;
    while i < width
        invariant
            i <= width,
            sum@ == Seq::new(i as nat, |j: int| calc.zero),
        decreases width - i,
    {
        sum.push(calc.zero);
        i = i + 1;
        assert(sum@ =~= Seq::new(i as nat, |j: int| calc.zero));
    }
    let ghost mut sums: Seq<Seq<T>> = seq![sum@];
    let ghost f = code_errors(codes@, *graph, codebook@);
    let n: u32 = graph.num_codebooks;
    let mut k: u32 = 0;
    while k < n
        invariant
            k <= n,
            n == graph.num_codebooks,
            codes@.len() == n,
            calc.works(),
            codebook@.dimensions.len() == 2,
            width == codebook@.dimensions[0],
            sum@.len() == width,
            f == code_errors(codes@, *graph, codebook@),
            first_of(f, 0, n as int) == first_of(f, k as int, n as int),
            code_sums(sums, codes@, *graph, codebook@, *calc),
            sums.len() == k + 1,
            sums.last() == sum@,
        decreases n - k,
    {
        let ghost here = f(k as int);
        let raw: i32 = codes[k as usize];
        let index: u32 = match code_row_of(raw, k, graph.codebook_size) {
            Err(e) => {
                assert(here == Some(e@));
                return Err(e);
            },
            Ok(v) => v,
        };
        match look_up(codebook, index, calc) {
            Err(e) => {
                assert(here == Some(e@));
                return Err(e);
            },
            Ok(values) => {
                assert(here is None);
                let next = zip_with(sum.as_slice(), values.as_slice(), Op::Plus, calc);
                proof {
                    let before = sums;
                    assert(is_table_row(codebook@, index as int, *calc, values@));
                    assert(adds_code(
                        codes@,
                        k as int,
                        *graph,
                        codebook@,
                        *calc,
                        sum@,
                        next@,
                    ));
                    sums = sums.push(next@);
                    assert forall|j: int| 0 <= j < sums.len() - 1 implies adds_code(
                        codes@,
                        j,
                        *graph,
                        codebook@,
                        *calc,
                        #[trigger] sums[j],
                        sums[j + 1],
                    ) by {
                        assert(sums[j] == before[j]);
                        if j < before.len() - 1 {
                            assert(sums[j + 1] == before[j + 1]);
                        }
                    }
                }
                sum = next;
            },
        }
        k = k + 1;
    }
    Ok((sum, Ghost(sums)))
}

fn scale_all<T: Copy, F: Fn(Op, T, T, T) -> T>(
    hidden: &Vec<T>,
    factor: Op,
    calc: &Calc<T, F>,
) -> (r: Vec<T>)
    requires
        calc.works(),
    ensures
        is_scaled(hidden@, factor, *calc, r@),
{
    let by: T = calc.constant(factor);
    let mut out: Vec<T> = Vec::new();
    let mut i: usize = 0;
    while i < hidden.len()
        invariant
            i <= hidden@.len(),
            calc.works(),
            out@.len() == i,
            forall|k: int|
                0 <= k < i ==> calc.gives(
                    Op::Times,
                    hidden@[k],
                    by,
                    calc.zero,
                    #[trigger] out@[k],
                ),
        decreases hidden@.len() - i,
    {
        let v: T = calc.two(Op::Times, hidden[i], by);
        out.push(v);
        i = i + 1;
    }
    assert(calc.gives(factor, calc.zero, calc.zero, calc.zero, by));
    out
}

fn embed_token<T: Copy, F: Fn(Op, T, T, T) -> T>(
    numbers: &[i32],
    graph: &DualArGraphSpec,
    weights: &SlowArEmbeddingWeights,
    calc: &Calc<T, F>,
) -> (r: Result<Vec<T>, InferError>)
    requires
        calc.works(),
        weights.fit(),
        numbers@.len() == graph.num_codebooks + 1,
        numbers@.len() <= usize::MAX,
    ensures
        match r {
            Ok(v) => token_error(numbers@, *graph, weights.semantic@, weights.codebook@) is None
                && is_embedded(numbers@, *graph, weights.semantic@, weights.codebook@, *calc, v@),
            Err(e) => token_error(numbers@, *graph, weights.semantic@, weights.codebook@) == Some(
                e@,
            ),
        },
{
    let token: i32 = numbers[0];
    if token < 0 {
        let a = dec_i64(token as i64);
        return Err(
            InferError::Message(
                String::from_str("semantic token id must be non-negative, got ").concat(
                    a.as_str(),
                ),
            ),
        );
    }
    let id: u32 = token as u32;
    let own = match look_up(&weights.semantic, id, calc) {
        Err(e) => {
            return Err(e);
        },
        Ok(v) => v,
    };
    let speech: bool = id >= graph.semantic_begin_id && id <= graph.semantic_end_id;
    assert(is_table_row(weights.semantic@, numbers@[0] as int, *calc, own@));
    let sum: Vec<T> = if speech {
        let codes = vstd::slice::slice_subrange(numbers, 1, numbers.len());
        assert(codes@ =~= numbers@.skip(1));
        match add_codes(codes, graph, &weights.codebook, calc) {
            Err(e) => {
                return Err(e);
            },
            Ok((code_sum, sums)) => {
                let v = zip_with(own.as_slice(), code_sum.as_slice(), Op::Plus, calc);
                assert(code_sums(sums@, numbers@.skip(1), *graph, weights.codebook@, *calc));
                v
            },
        }
    } else {
        own
    };
    assert(is_token_sum(
        numbers@,
        *graph,
        weights.semantic@,
        weights.codebook@,
        *calc,
        sum@,
    ));
    if graph.scale_codebook_embeddings {
        let factor = if speech {
            Op::RootOver(graph.num_codebooks as usize + 1)
        } else {
            Op::Single(0x3f80_0000)
        };
        return Ok(scale_all(&sum, factor, calc));
    }
    Ok(sum)
}

// ---------------------------------------------------------------------
// All tokens
// ---------------------------------------------------------------------

/// The numbers of one token.
pub open spec fn numbers_of(flat: Seq<i32>, i: int, graph: DualArGraphSpec) -> Seq<i32> {
    row(flat, i, graph.num_codebooks + 1)
}

/// What is wrong with each token, if anything.
pub open spec fn token_errors(
    flat: Seq<i32>,
    graph: DualArGraphSpec,
    semantic: WideView,
    codebook: WideView,
) -> spec_fn(int) -> Option<ErrorView> {
    |i: int| token_error(numbers_of(flat, i, graph), graph, semantic, codebook)
}

/// What is wrong with the count of numbers, if anything.
pub open spec fn count_error(count: nat, graph: DualArGraphSpec) -> Option<ErrorView> {
    if count % ((graph.num_codebooks + 1) as nat) != 0 {
        Some(
            message(
                "flat token length "@ + dec(count) + " is not a multiple of codebook_dim "@ + dec(
                    (graph.num_codebooks + 1) as nat,
                ),
            ),
        )
    } else {
        None
    }
}

/// How many tokens there are.
pub open spec fn token_count(flat: Seq<i32>, graph: DualArGraphSpec) -> int {
    flat.len() as int / (graph.num_codebooks + 1)
}

/// What is wrong with turning token numbers into hidden states, if anything.
pub open spec fn embed_error(
    flat: Seq<i32>,
    graph: DualArGraphSpec,
    semantic: WideView,
    codebook: WideView,
) -> Option<ErrorView> {
    or_else(
        count_error(flat.len(), graph),
        first_of(
            token_errors(flat, graph, semantic, codebook),
            0,
            token_count(flat, graph),
        ),
    )
}

/// Whether these are the hidden states of all tokens.
pub open spec fn are_embedded<T: Copy, F: Fn(Op, T, T, T) -> T>(
    flat: Seq<i32>,
    graph: DualArGraphSpec,
    semantic: WideView,
    codebook: WideView,
    calc: Calc<T, F>,
    out: Seq<Seq<T>>,
) -> bool {
    &&& out.len() == token_count(flat, graph)
    &&& forall|i: int|
        0 <= i < out.len() ==> is_embedded(
            numbers_of(flat, i, graph),
            graph,
            semantic,
            codebook,
            calc,
            #[trigger] out[i],
        )
}

pub(crate) fn check_count(count: usize, dim: usize, graph: Ghost<DualArGraphSpec>) -> (r: Result<
    (),
    InferError,
>)
    requires
        dim == graph@.num_codebooks + 1,
    ensures
        is_finding(r, count_error(count as nat, graph@)),
{
    if count % dim != 0 {
        let a = dec_usize(count);
        let b = dec_usize(dim);
        return Err(
            InferError::Message(
                String::from_str("flat token length ").concat(a.as_str()).concat(
                    " is not a multiple of codebook_dim ",
                ).concat(b.as_str()),
            ),
        );
    }
    Ok(())
}

/// Turns token numbers into hidden states.
pub fn embed_slow_ar_time_major<T: Copy, F: Fn(Op, T, T, T) -> T>(
    flat_tokens: &[i32],
    graph: &DualArGraphSpec,
    weights: &SlowArEmbeddingWeights,
    calc: &Calc<T, F>,
) -> (r: Result<Vec<Vec<T>>, InferError>)
    requires
        calc.works(),
        weights.fit(),
        graph.num_codebooks < u32::MAX,
    ensures
        match r {
            Ok(v) => embed_error(
                flat_tokens@,
                *graph,
                weights.semantic@,
                weights.codebook@,
            ) is None && are_embedded(
                flat_tokens@,
                *graph,
                weights.semantic@,
                weights.codebook@,
                *calc,
                lists(v@),
            ),
            Err(e) => embed_error(
                flat_tokens@,
                *graph,
                weights.semantic@,
                weights.codebook@,
            ) == Some(e@),
        },
{
    let dim: usize = graph.codebook_input_dim() as usize;
    let size: usize = flat_tokens.len();
    match check_count(size, dim, Ghost(*graph)) {
        Err(e) => {
            return Err(e);
        },
        Ok(_) => {},
    }
    let count: usize = size / dim;
    let ghost f = token_errors(flat_tokens@, *graph, weights.semantic@, weights.codebook@);
    proof {
        vstd::arithmetic::div_mod::lemma_fundamental_div_mod(size as int, dim as int);
        vstd::arithmetic::mul::lemma_mul_is_commutative(count as int, dim as int);
    }
    let mut out: Vec<Vec<T>> = Vec::new();
    let mut i: usize = 0;
    while i < count
        invariant
            i <= count,
            dim == graph.num_codebooks + 1,
            size == flat_tokens@.len(),
            size == count * dim,
            count == token_count(flat_tokens@, *graph),
            calc.works(),
            weights.fit(),
            count_error(flat_tokens@.len(), *graph) is None,
            f == token_errors(flat_tokens@, *graph, weights.semantic@, weights.codebook@),
            first_of(f, 0, count as int) == first_of(f, i as int, count as int),
            out@.len() == i,
            forall|k: int|
                0 <= k < i ==> is_embedded(
                    numbers_of(flat_tokens@, k, *graph),
                    *graph,
                    weights.semantic@,
                    weights.codebook@,
                    *calc,
                    (#[trigger] out@[k])@,
                ),
        decreases count - i,
    {
        let ghost here = f(i as int);
        proof {
            lemma_next_row(i as int, dim as int);
            lemma_rows_monotone(i as int + 1, count as int, dim as int);
            lemma_rows_monotone(0, i as int, dim as int);
        }
        let numbers = crate::numeric::row_of(flat_tokens, i, dim, Ghost(count as int));
        match embed_token(numbers, graph, weights, calc) {
            Err(e) => {
                assert(here == Some(e@));
                return Err(e);
            },
            Ok(v) => {
                assert(here is None);
                out.push(v);
            },
        }
        i = i + 1;
    }
    Ok(out)
}

// ---------------------------------------------------------------------
// What a hidden state is made of
// ---------------------------------------------------------------------

/// The code of a codebook stands in the part of the table that belongs to the codebook: the row,
/// divided by the size of a codebook, is the codebook, and what is left over is the code.
pub proof fn codes_stand_in_their_codebook(raw: i32, codebook: int, codebook_size: u32)
    requires
        0 <= codebook,
        0 <= raw < codebook_size,
    ensures
        codebook * codebook_size + raw <= u32::MAX ==> code_row(raw, codebook, codebook_size) is Ok,
        code_row(raw, codebook, codebook_size) matches Ok(n) ==> {
            &&& n as int / (codebook_size as int) == codebook
            &&& n as int % (codebook_size as int) == raw
        },
{
    crate::arith::lemma_cell(codebook, codebook + 1, raw as int, codebook_size as int);
    lemma_rows_monotone(0, codebook, codebook_size as int);
}

/// Codes of different codebooks, and different codes of one, stand in different rows.
pub proof fn codes_share_no_row(
    raw: i32,
    codebook: int,
    other_raw: i32,
    other_codebook: int,
    codebook_size: u32,
)
    requires
        0 <= codebook,
        0 <= other_codebook,
        0 <= raw < codebook_size,
        0 <= other_raw < codebook_size,
        code_row(raw, codebook, codebook_size) is Ok,
        code_row(raw, codebook, codebook_size) == code_row(
            other_raw,
            other_codebook,
            codebook_size,
        ),
    ensures
        raw == other_raw,
        codebook == other_codebook,
{
    codes_stand_in_their_codebook(raw, codebook, codebook_size);
    codes_stand_in_their_codebook(other_raw, other_codebook, codebook_size);
}

/// Whether a value is the number with the given bits.
pub open spec fn has_bits<T: Copy, F: Fn(Op, T, T, T) -> T>(
    bits: u32,
    calc: Calc<T, F>,
    value: T,
) -> bool {
    calc.gives(Op::Single(bits), calc.zero, calc.zero, calc.zero, value)
}

/// Whether the sums at place `j` come from the codes of a frame: the code of codebook `k` brings in
/// the number at place `j` of row `k` times the codebook size plus the code.
pub open spec fn codes_add_up<T: Copy, F: Fn(Op, T, T, T) -> T>(
    table: Seq<u32>,
    width: int,
    codes: Seq<i32>,
    codebook_size: int,
    j: int,
    calc: Calc<T, F>,
    parts: Seq<T>,
    sums: Seq<T>,
) -> bool {
    &&& parts.len() == codes.len()
    &&& sums.len() == codes.len() + 1
    &&& sums[0] == calc.zero
    &&& forall|k: int|
        0 <= k < codes.len() ==> has_bits(
            table[(k * codebook_size + codes[k]) * width + j],
            calc,
            #[trigger] parts[k],
        ) && calc.gives(Op::Plus, sums[k], parts[k], calc.zero, sums[k + 1])
}

/// Whether a value of a hidden state is that of a speech token: the number of the token's own row,
/// with those of its codes, and divided by the root of how many there are where the model does so.
pub open spec fn is_speech_value<T: Copy, F: Fn(Op, T, T, T) -> T>(
    numbers: Seq<i32>,
    graph: DualArGraphSpec,
    semantic: WideView,
    codebook: WideView,
    j: int,
    calc: Calc<T, F>,
    own: T,
    parts: Seq<T>,
    sums: Seq<T>,
    sum: T,
    by: T,
    value: T,
) -> bool {
    let width = semantic.dimensions[0] as int;
    let z = calc.zero;
    &&& has_bits(semantic.values[numbers[0] * width + j], calc, own)
    &&& codes_add_up(
        codebook.values,
        width,
        numbers.subrange(1, numbers.len() as int),
        graph.codebook_size as int,
        j,
        calc,
        parts,
        sums,
    )
    &&& calc.gives(Op::Plus, own, sums[numbers.len() - 1], z, sum)
    &&& if graph.scale_codebook_embeddings {
        &&& calc.gives(Op::RootOver(numbers.len() as usize), z, z, z, by)
        &&& calc.gives(Op::Times, sum, by, z, value)
    } else {
        value == sum
    }
}

proof fn lemma_row_place(table: WideView, i: u32, width: int, j: int)
    requires
        table.dimensions.len() == 2,
        width == table.dimensions[0],
        lookup_error(table.values.len(), table.dimensions[0], table.dimensions[1], seq![i]) is None,
        0 <= j < width,
    ensures
        row(table.values, i as int, width).len() == width,
        row(table.values, i as int, width)[j] == table.values[i * width + j],
{
    let count = table.dimensions[1];
    crate::tensor::lemma_lookup_inside(
        table.dimensions[0],
        count,
        seq![i],
        table.values.len(),
        0,
    );
    assert(seq![i][0] == i);
    lemma_next_row(i as int, width);
    lemma_rows_monotone(i as int + 1, count as int, width);
    lemma_rows_monotone(0, i as int, width);
    vstd::arithmetic::mul::lemma_mul_is_commutative(width, count as int);
}

spec fn code_values<T: Copy, F: Fn(Op, T, T, T) -> T>(
    codes: Seq<i32>,
    k: int,
    graph: DualArGraphSpec,
    codebook: WideView,
    calc: Calc<T, F>,
    sum: Seq<T>,
    next: Seq<T>,
) -> Seq<T> {
    choose|values: Seq<T>|
        #[trigger] is_table_row(
            codebook,
            code_row(codes[k], k, graph.codebook_size)->Ok_0 as int,
            calc,
            values,
        ) && is_zipped(sum, values, Op::Plus, calc, next)
}

proof fn lemma_sum_widths<T: Copy, F: Fn(Op, T, T, T) -> T>(
    sums: Seq<Seq<T>>,
    codes: Seq<i32>,
    graph: DualArGraphSpec,
    codebook: WideView,
    calc: Calc<T, F>,
    k: int,
)
    requires
        code_sums(sums, codes, graph, codebook, calc),
        0 <= k < sums.len(),
    ensures
        sums[k].len() == codebook.dimensions[0],
    decreases k,
{
    if k > 0 {
        lemma_sum_widths(sums, codes, graph, codebook, calc, k - 1);
        assert(adds_code(codes, k - 1, graph, codebook, calc, sums[k - 1], sums[k - 1 + 1]));
    }
}

/// The hidden state of a speech token is, place by place, the number of the token's own row and the
/// numbers of the rows of its codes, each code looked up in the part of the table that belongs to its
/// codebook, added up.
pub proof fn speech_tokens_add_up_their_codes<T: Copy, F: Fn(Op, T, T, T) -> T>(
    numbers: Seq<i32>,
    graph: DualArGraphSpec,
    semantic: WideView,
    codebook: WideView,
    calc: Calc<T, F>,
    out: Seq<T>,
    j: int,
)
    requires
        is_embedded(numbers, graph, semantic, codebook, calc, out),
        token_error(numbers, graph, semantic, codebook) is None,
        embedding_dims_error(semantic.dimensions, codebook.dimensions) is None,
        numbers.len() == graph.num_codebooks + 1,
        graph.semantic_begin_id <= numbers[0] <= graph.semantic_end_id,
        0 <= j < semantic.dimensions[0],
    ensures
        out.len() == semantic.dimensions[0],
        exists|own: T, parts: Seq<T>, sums: Seq<T>, sum: T, by: T|
            #[trigger] is_speech_value(
                numbers,
                graph,
                semantic,
                codebook,
                j,
                calc,
                own,
                parts,
                sums,
                sum,
                by,
                out[j],
            ),
{
    let width = semantic.dimensions[0] as int;
    let codes = numbers.skip(1);
    let n = graph.num_codebooks as int;
    assert(codes =~= numbers.subrange(1, numbers.len() as int));
    let sum = choose|sum: Seq<T>|
        #[trigger] is_token_sum(numbers, graph, semantic, codebook, calc, sum) && if graph.scale_codebook_embeddings {
            is_scaled(sum, token_factor(numbers[0], graph), calc, out)
        } else {
            out == sum
        };
    let own = choose|own: Seq<T>|
        #[trigger] is_table_row(semantic, numbers[0] as int, calc, own) && exists|
            sums: Seq<Seq<T>>,
        |
            #[trigger] code_sums(sums, codes, graph, codebook, calc) && sums.len() == n + 1
                && is_zipped(own, sums.last(), Op::Plus, calc, sum);
    let sums = choose|sums: Seq<Seq<T>>|
        #[trigger] code_sums(sums, codes, graph, codebook, calc) && sums.len() == n + 1
            && is_zipped(own, sums.last(), Op::Plus, calc, sum);
    lemma_row_place(semantic, numbers[0] as u32, width, j);
    assert(own.len() == width);
    assert(sum.len() == width);
    let values = |k: int|
        code_values(codes, k, graph, codebook, calc, sums[k], sums[k + 1]);
    let parts = Seq::new(n as nat, |k: int| values(k)[j]);
    let places = Seq::new((n + 1) as nat, |k: int| sums[k][j]);
    let f = code_errors(codes, graph, codebook);
    crate::slow_sequence::no_first_where_none(f, 0, n);
    assert forall|k: int| 0 <= k < codes.len() implies has_bits(
        codebook.values[(k * graph.codebook_size + codes[k]) * width + j],
        calc,
        #[trigger] parts[k],
    ) && calc.gives(Op::Plus, places[k], parts[k], calc.zero, places[k + 1]) by {
        assert(f(k) is None);
        let at = code_row(codes[k], k, graph.codebook_size)->Ok_0;
        assert(at == k * graph.codebook_size + codes[k]);
        lemma_row_place(codebook, at, width, j);
        assert(adds_code(codes, k, graph, codebook, calc, sums[k], sums[k + 1]));
        assert(is_table_row(codebook, at as int, calc, values(k)));
        assert(is_zipped(sums[k], values(k), Op::Plus, calc, sums[k + 1]));
        lemma_sum_widths(sums, codes, graph, codebook, calc, k);
        lemma_sum_widths(sums, codes, graph, codebook, calc, k + 1);
        assert(values(k)[j] == parts[k]);
        assert(calc.gives(Op::Plus, sums[k][j], values(k)[j], calc.zero, sums[k + 1][j]));
    }
    assert(codes_add_up(
        codebook.values,
        width,
        codes,
        graph.codebook_size as int,
        j,
        calc,
        parts,
        places,
    ));
    assert(has_bits(semantic.values[numbers[0] * width + j], calc, own[j]));
    assert(calc.gives(Op::Plus, own[j], places[n], calc.zero, sum[j]));
    let by = if graph.scale_codebook_embeddings {
        choose|by: T|
            #[trigger] calc.gives(
                token_factor(numbers[0], graph),
                calc.zero,
                calc.zero,
                calc.zero,
                by,
            ) && out.len() == sum.len() && forall|i: int|
                0 <= i < sum.len() ==> calc.gives(
                    Op::Times,
                    sum[i],
                    by,
                    calc.zero,
                    #[trigger] out[i],
                )
    } else {
        calc.zero
    };
    assert(is_speech_value(
        numbers,
        graph,
        semantic,
        codebook,
        j,
        calc,
        own[j],
        parts,
        places,
        sum[j],
        by,
        out[j],
    ));
}

/// Whether a value is the number with the given bits, times one where the model scales.
pub open spec fn is_plain_value<T: Copy, F: Fn(Op, T, T, T) -> T>(
    bits: u32,
    scaled: bool,
    calc: Calc<T, F>,
    own: T,
    one: T,
    value: T,
) -> bool {
    &&& has_bits(bits, calc, own)
    &&& if scaled {
        has_bits(0x3f80_0000, calc, one) && calc.gives(Op::Times, own, one, calc.zero, value)
    } else {
        value == own
    }
}

/// The hidden state of a token that does not stand for speech is the row of the token, place by
/// place, whatever its other numbers are.
pub proof fn other_tokens_are_their_row<T: Copy, F: Fn(Op, T, T, T) -> T>(
    numbers: Seq<i32>,
    graph: DualArGraphSpec,
    semantic: WideView,
    codebook: WideView,
    calc: Calc<T, F>,
    out: Seq<T>,
    j: int,
)
    requires
        is_embedded(numbers, graph, semantic, codebook, calc, out),
        token_error(numbers, graph, semantic, codebook) is None,
        embedding_dims_error(semantic.dimensions, codebook.dimensions) is None,
        !(graph.semantic_begin_id <= numbers[0] <= graph.semantic_end_id),
        0 <= j < semantic.dimensions[0],
    ensures
        out.len() == semantic.dimensions[0],
        exists|own: T, one: T|
            #[trigger] is_plain_value(
                semantic.values[numbers[0] * semantic.dimensions[0] + j],
                graph.scale_codebook_embeddings,
                calc,
                own,
                one,
                out[j],
            ),
{
    let width = semantic.dimensions[0] as int;
    let sum = choose|sum: Seq<T>|
        #[trigger] is_token_sum(numbers, graph, semantic, codebook, calc, sum) && if graph.scale_codebook_embeddings {
            is_scaled(sum, token_factor(numbers[0], graph), calc, out)
        } else {
            out == sum
        };
    assert(is_table_row(semantic, numbers[0] as int, calc, sum));
    lemma_row_place(semantic, numbers[0] as u32, width, j);
    assert(has_bits(semantic.values[numbers[0] * width + j], calc, sum[j]));
    if graph.scale_codebook_embeddings {
        let by = choose|by: T|
            #[trigger] calc.gives(
                token_factor(numbers[0], graph),
                calc.zero,
                calc.zero,
                calc.zero,
                by,
            ) && out.len() == sum.len() && forall|i: int|
                0 <= i < sum.len() ==> calc.gives(
                    Op::Times,
                    sum[i],
                    by,
                    calc.zero,
                    #[trigger] out[i],
                );
        assert(has_bits(0x3f80_0000, calc, by));
        assert(calc.gives(Op::Times, sum[j], by, calc.zero, out[j]));
        assert(is_plain_value(
            semantic.values[numbers[0] * width + j],
            true,
            calc,
            sum[j],
            by,
            out[j],
        ));
    } else {
        assert(is_plain_value(
            semantic.values[numbers[0] * width + j],
            false,
            calc,
            sum[j],
            sum[j],
            out[j],
        ));
    }
}

} // verus!
