//! Quantizers: from codes to frames, and from frames to the nearest codes.
use crate::arith::lemma_rows_monotone;
use crate::backend::{linear_error, CpuMatmulBackend};
use crate::codec_weights::CodecQuantizerValues;
use crate::conv::{agree_error, is_biased_linear};
use crate::error::{message, mismatch, size_mismatch, ErrorView, InferError};
use crate::numeric::{dot, gathered, is_linear, pairs, row, row_of, Calc, Op};
use crate::sizes::or_else;
use crate::tensor::{embedding_lookup_rows, lemma_lookup_inside, lookup_error};
use vstd::prelude::*;

verus! {

// ---------------------------------------------------------------------
// One code
// ---------------------------------------------------------------------

impl<T: Copy> CodecQuantizerValues<T> {
    /// What is wrong with turning a code into a frame, if anything.
    pub open spec fn project_error(&self, code: u32, size: usize) -> Option<ErrorView> {
        or_else(
            lookup_error(self.codebook_weight@.len(), 8, size, seq![code]),
            or_else(
                linear_error(8, self.out_proj_weight@.len(), 8, 1024),
                agree_error("bias"@, "output="@, 1024, " bias="@, self.out_proj_bias@.len()),
            ),
        )
    }

    /// Whether a frame is the one that a code stands for: its row through a table, with a bias.
    pub open spec fn is_projected<F: Fn(Op, T, T, T) -> T>(
        &self,
        code: u32,
        calc: Calc<T, F>,
        out: Seq<T>,
    ) -> bool {
        is_biased_linear(
            row(self.codebook_weight@, code as int, 8),
            self.out_proj_weight@,
            self.out_proj_bias@,
            calc,
            out,
        )
    }

    /// The frame that a code stands for.
    pub fn project_code<F: Fn(Op, T, T, T) -> T>(
        &self,
        code_id: u32,
        codebook_size: usize,
        calc: &Calc<T, F>,
    ) -> (r: Result<Vec<T>, InferError>)
        requires
            calc.works(),
        ensures
            match r {
                Ok(v) => self.project_error(code_id, codebook_size) is None && self.is_projected(
                    code_id,
                    *calc,
                    v@,
                ) && v@.len() == 1024,
                Err(e) => self.project_error(code_id, codebook_size) == Some(e@),
            },
    {
        let mut one: Vec<u32> = Vec::new();
        one.push(code_id);
        assert(one@ =~= seq![code_id]);
        let rows = match embedding_lookup_rows(
            self.codebook_weight.as_slice(),
            8,
            codebook_size,
            one.as_slice(),
        ) {
            Err(e) => {
                return Err(e);
            },
            Ok(v) => v,
        };
        proof {
            let c = code_id as int;
            lemma_lookup_inside(8, codebook_size, seq![code_id], self.codebook_weight@.len(), 0);
            lemma_rows_monotone(c + 1, codebook_size as int, 8);
        }
        let plain = match CpuMatmulBackend::new().linear(
            rows[0].as_slice(),
            self.out_proj_weight.as_slice(),
            8,
            1024,
            calc,
        ) {
            Err(e) => {
                return Err(e);
            },
            Ok(v) => v,
        };
        match crate::conv::add_bias(plain.as_slice(), self.out_proj_bias.as_slice(), calc) {
            Err(e) => Err(e),
            Ok(v) => {
                assert(is_linear(rows@[0]@, self.out_proj_weight@, *calc, plain@));
                Ok(v)
            },
        }
    }
}

// ---------------------------------------------------------------------
// The nearest code
// ---------------------------------------------------------------------

/// Whether these are the quotients of the values by one divisor.
pub open spec fn are_quotients<T: Copy, F: Fn(Op, T, T, T) -> T>(
    values: Seq<T>,
    by: T,
    calc: Calc<T, F>,
    out: Seq<T>,
) -> bool {
    &&& out.len() == values.len()
    &&& forall|i: int|
        0 <= i < values.len() ==> calc.gives(Op::Over, values[i], by, calc.zero, #[trigger] out[i])
}

/// Whether this is the length of a list of values.
pub open spec fn is_length<T: Copy, F: Fn(Op, T, T, T) -> T>(
    values: Seq<T>,
    calc: Calc<T, F>,
    length: T,
) -> bool {
    exists|s: T|
        #[trigger] gathered(pairs(values, values), calc.zero, calc, s) && calc.gives(
            Op::Length,
            s,
            calc.zero,
            calc.zero,
            length,
        )
}

/// Whether a score is that of a code: both lists divided by their lengths, and multiplied.
pub open spec fn is_code_score<T: Copy, F: Fn(Op, T, T, T) -> T>(
    projected: Seq<T>,
    length: T,
    line: Seq<T>,
    calc: Calc<T, F>,
    score: T,
) -> bool {
    exists|other: T, a: Seq<T>, b: Seq<T>|
        {
            &&& is_length(line, calc, other)
            &&& #[trigger] are_quotients(projected, length, calc, a)
            &&& #[trigger] are_quotients(line, other, calc, b)
            &&& gathered(pairs(a, b), calc.zero, calc, score)
        }
}

/// The best code so far, and its score: that of the code at hand where it exceeds the one before.
pub open spec fn betters<T, G: Fn(T, T) -> bool>(
    bests: Seq<(u32, T)>,
    scores: Seq<T>,
    lowest: T,
    exceeds: G,
) -> bool {
    &&& bests.len() == scores.len() + 1
    &&& bests[0] == (0u32, lowest)
    &&& forall|i: int|
        0 <= i < scores.len() ==> better_step(bests[i], scores[i], i, #[trigger] bests[i + 1], exceeds)
}

/// One step of the search for the best code.
pub open spec fn better_step<T, G: Fn(T, T) -> bool>(
    before: (u32, T),
    score: T,
    i: int,
    after: (u32, T),
    exceeds: G,
) -> bool {
    ||| call_ensures(exceeds, (score, before.1), true) && after == (i as u32, score)
    ||| call_ensures(exceeds, (score, before.1), false) && after == before
}

fn length_of<T: Copy, F: Fn(Op, T, T, T) -> T>(values: &[T], calc: &Calc<T, F>) -> (r: T)
    requires
        calc.works(),
    ensures
        is_length(values@, *calc, r),
{
    let s: T = dot(values, values, calc);
    calc.one(Op::Length, s)
}

fn quotients<T: Copy, F: Fn(Op, T, T, T) -> T>(values: &[T], by: T, calc: &Calc<T, F>) -> (r: Vec<
    T,
>)
    requires
        calc.works(),
    ensures
        are_quotients(values@, by, *calc, r@),
{
    let mut out: Vec<T> = Vec::new();
    let mut i: usize = 0;
    while i < values.len()
        invariant
            i <= values@.len(),
            calc.works(),
            out@.len() == i,
            forall|k: int|
                0 <= k < i ==> calc.gives(
                    Op::Over,
                    values@[k],
                    by,
                    calc.zero,
                    #[trigger] out@[k],
                ),
        decreases values@.len() - i,
    {
        let v: T = calc.two(Op::Over, values[i], by);
        out.push(v);
        i = i + 1;
    }
    out
}

impl<T: Copy> CodecQuantizerValues<T> {
    /// What is wrong with searching the nearest code, if anything.
    pub open spec fn nearest_error(&self, residual: nat, size: usize) -> Option<ErrorView> {
        if residual != 1024 {
            Some(mismatch("codec VQ residual length"@, 1024, residual))
        } else {
            or_else(
                linear_error(1024, self.in_proj_weight@.len(), 1024, 8),
                or_else(
                    agree_error("bias"@, "output="@, 8, " bias="@, self.in_proj_bias@.len()),
                    if 8 * size > usize::MAX {
                        Some(message("codec codebook length overflow"@))
                    } else if self.codebook_weight@.len() != 8 * size {
                        Some(
                            mismatch(
                                "codec codebook length"@,
                                (8 * size) as nat,
                                self.codebook_weight@.len(),
                            ),
                        )
                    } else {
                        None
                    },
                ),
            )
        }
    }

    /// What is wrong with searching the nearest code and turning it into a frame, if anything.
    pub open spec fn search_error(&self, residual: nat, size: usize) -> Option<ErrorView> {
        or_else(self.nearest_error(residual, size), self.project_error(0, size))
    }

    /// Whether a code is the nearest to a frame: the first with the best score.
    pub open spec fn is_nearest<F: Fn(Op, T, T, T) -> T, G: Fn(T, T) -> bool>(
        &self,
        residual: Seq<T>,
        size: usize,
        calc: Calc<T, F>,
        exceeds: G,
        code: u32,
    ) -> bool {
        exists|projected: Seq<T>, length: T, scores: Seq<T>, lowest: T, bests: Seq<(u32, T)>|
            {
                &&& #[trigger] is_biased_linear(
                    residual,
                    self.in_proj_weight@,
                    self.in_proj_bias@,
                    calc,
                    projected,
                )
                &&& #[trigger] is_length(projected, calc, length)
                &&& self.are_scores(projected, length, size, calc, scores)
                &&& calc.gives(
                    Op::Single(0xff80_0000),
                    calc.zero,
                    calc.zero,
                    calc.zero,
                    lowest,
                )
                &&& #[trigger] betters(bests, scores, lowest, exceeds)
                &&& bests.last().0 == code
            }
    }

    /// Whether these are the scores of all codes.
    pub open spec fn are_scores<F: Fn(Op, T, T, T) -> T>(
        &self,
        projected: Seq<T>,
        length: T,
        size: usize,
        calc: Calc<T, F>,
        scores: Seq<T>,
    ) -> bool {
        &&& scores.len() == size
        &&& forall|i: int|
            0 <= i < size ==> is_code_score(
                projected,
                length,
                row(self.codebook_weight@, i, 8),
                calc,
                #[trigger] scores[i],
            )
    }

    fn best_code<F: Fn(Op, T, T, T) -> T, G: Fn(T, T) -> bool>(
        &self,
        projected: &Vec<T>,
        length: T,
        size: usize,
        calc: &Calc<T, F>,
        exceeds: &G,
    ) -> (r: (u32, Ghost<Seq<T>>, Ghost<T>, Ghost<Seq<(u32, T)>>))
        requires
            calc.works(),
            forall|a: T, b: T| call_requires(*exceeds, (a, b)),
            self.codebook_weight@.len() == 8 * size,
            self.codebook_weight@.len() <= usize::MAX,
            size <= u32::MAX,
        ensures
            self.are_scores(projected@, length, size, *calc, r.1@),
            calc.gives(Op::Single(0xff80_0000), calc.zero, calc.zero, calc.zero, r.2@),
            betters(r.3@, r.1@, r.2@, *exceeds),
            r.3@.last().0 == r.0,
            r.0 < size || r.0 == 0,
    {
        let lowest: T = calc.constant(Op::Single(0xff80_0000));
        let mut best: u32 = 0;
        let mut best_score: T = lowest;
        let ghost mut scores: Seq<T> = Seq::empty();
        let ghost mut bests: Seq<(u32, T)> = seq![(0u32, lowest)];
        let mut i: usize = 0;
        while i < size
            invariant
                i <= size,
                size <= u32::MAX,
                calc.works(),
                forall|a: T, b: T| call_requires(*exceeds, (a, b)),
                self.codebook_weight@.len() == 8 * size,
                self.codebook_weight@.len() <= usize::MAX,
                scores.len() == i,
                forall|k: int|
                    0 <= k < i ==> is_code_score(
                        projected@,
                        length,
                        row(self.codebook_weight@, k, 8),
                        *calc,
                        #[trigger] scores[k],
                    ),
                betters(bests, scores, lowest, *exceeds),
                bests.last() == (best, best_score),
                best < i || best == 0,
            decreases size - i,
        {
            let line = row_of(self.codebook_weight.as_slice(), i, 8, Ghost(size as int));
            let other: T = length_of(line, calc);
            let a = quotients(projected.as_slice(), length, calc);
            let b = quotients(line, other, calc);
            let score: T = dot(a.as_slice(), b.as_slice(), calc);
            let ghost old_scores = scores;
            let ghost old_bests = bests;
            proof {
                assert(is_code_score(projected@, length, line@, *calc, score)) by {
                    assert(are_quotients(projected@, length, *calc, a@));
                    assert(are_quotients(line@, other, *calc, b@));
                }
                scores = scores.push(score);
            }
            let better: bool = exceeds(score, best_score);
            if better {
                best = i as u32;
                best_score = score;
            }
            proof {
                bests = bests.push((best, best_score));
                assert forall|k: int| 0 <= k < scores.len() implies better_step(
                    bests[k],
                    scores[k],
                    k,
                    #[trigger] bests[k + 1],
                    *exceeds,
                ) by {
                    assert(bests[k] == old_bests[k]);
                    if k < old_scores.len() {
                        assert(scores[k] == old_scores[k]);
                        assert(bests[k + 1] == old_bests[k + 1]);
                    }
                }
                assert forall|k: int| 0 <= k < i + 1 implies is_code_score(
                    projected@,
                    length,
                    row(self.codebook_weight@, k, 8),
                    *calc,
                    #[trigger] scores[k],
                ) by {
                    if k < i {
                        assert(scores[k] == old_scores[k]);
                    }
                }
            }
            i = i + 1;
        }
        (best, Ghost(scores), Ghost(lowest), Ghost(bests))
    }

    /// The nearest code to a frame, and the frame that it stands for.
    pub fn nearest_code_for_residual<F: Fn(Op, T, T, T) -> T, G: Fn(T, T) -> bool>(
        &self,
        residual: &[T],
        codebook_size: usize,
        calc: &Calc<T, F>,
        exceeds: &G,
    ) -> (r: Result<(u32, Vec<T>), InferError>)
        requires
            calc.works(),
            forall|a: T, b: T| call_requires(*exceeds, (a, b)),
            codebook_size <= u32::MAX,
        ensures
            match r {
                Ok(p) => {
                    &&& self.search_error(residual@.len(), codebook_size) is None
                    &&& self.is_nearest(residual@, codebook_size, *calc, *exceeds, p.0)
                    &&& self.is_projected(p.0, *calc, p.1@)
                    &&& p.1@.len() == 1024
                    &&& p.0 < codebook_size
                },
                Err(e) => self.search_error(residual@.len(), codebook_size) == Some(e@),
            },
    {
        let found: usize = residual.len();
        if found != 1024 {
            return Err(size_mismatch("codec VQ residual length", 1024, found));
        }
        let plain = match CpuMatmulBackend::new().linear(
            residual,
            self.in_proj_weight.as_slice(),
            1024,
            8,
            calc,
        ) {
            Err(e) => {
                return Err(e);
            },
            Ok(v) => v,
        };
        let projected = match crate::conv::add_bias(
            plain.as_slice(),
            self.in_proj_bias.as_slice(),
            calc,
        ) {
            Err(e) => {
                return Err(e);
            },
            Ok(v) => v,
        };
        assert(is_linear(residual@, self.in_proj_weight@, *calc, plain@));
        let size: usize = self.codebook_weight.len();
        match codebook_size.checked_mul(8) {
            None => {
                return Err(InferError::text("codec codebook length overflow"));
            },
            Some(expected) => {
                if size != expected {
                    return Err(size_mismatch("codec codebook length", expected, size));
                }
            },
        }
        let length: T = length_of(projected.as_slice(), calc);
        let (code, scores, lowest, bests) = self.best_code(
            &projected,
            length,
            codebook_size,
            calc,
            exceeds,
        );
        proof {
            assert(is_biased_linear(
                residual@,
                self.in_proj_weight@,
                self.in_proj_bias@,
                *calc,
                projected@,
            ));
            assert(is_length(projected@, *calc, length));
            assert(betters(bests@, scores@, lowest@, *exceeds));
            assert(self.is_nearest(residual@, codebook_size, *calc, *exceeds, code));
        }
        proof {
            let n = self.codebook_weight@.len();
            reveal_with_fuel(crate::tensor::index_error, 2);
            if codebook_size > 0 {
                assert(lookup_error(n, 8, codebook_size, seq![code]) is None);
                assert(lookup_error(n, 8, codebook_size, seq![0u32]) is None);
            }
            assert(self.project_error(code, codebook_size) == self.project_error(0, codebook_size));
        }
        match self.project_code(code, codebook_size, calc) {
            Err(e) => Err(e),
            Ok(frame) => {
                proof {
                    lemma_lookup_inside(
                        8,
                        codebook_size,
                        seq![code],
                        self.codebook_weight@.len(),
                        0,
                    );
                }
                Ok((code, frame))
            },
        }
    }
}

/// The nearest code is the first with the largest score, where comparing follows an order and
/// every score exceeds the one that the search starts from.
pub proof fn nearest_is_first_largest<T, G: Fn(T, T) -> bool>(
    bests: Seq<(u32, T)>,
    scores: Seq<T>,
    lowest: T,
    exceeds: G,
    above: spec_fn(T, T) -> bool,
)
    requires
        betters(bests, scores, lowest, exceeds),
        0 < scores.len() <= u32::MAX,
        forall|a: T, b: T, v: bool| #[trigger] call_ensures(exceeds, (a, b), v) ==> v == above(a, b),
        forall|a: T, b: T, c: T| above(a, b) && !#[trigger] above(c, b) ==> #[trigger] above(a, c),
        forall|a: T, b: T| #[trigger] above(a, b) ==> !above(b, a),
        forall|i: int| 0 <= i < scores.len() ==> above(#[trigger] scores[i], lowest),
    ensures
        bests.last().0 < scores.len(),
        forall|i: int|
            0 <= i < scores.len() ==> !above(
                #[trigger] scores[i],
                scores[bests.last().0 as int],
            ),
        forall|i: int|
            0 <= i < bests.last().0 ==> above(
                scores[bests.last().0 as int],
                #[trigger] scores[i],
            ),
{
    lemma_best_of_first(bests, scores, lowest, exceeds, above, scores.len() as int);
}

proof fn lemma_best_of_first<T, G: Fn(T, T) -> bool>(
    bests: Seq<(u32, T)>,
    scores: Seq<T>,
    lowest: T,
    exceeds: G,
    above: spec_fn(T, T) -> bool,
    n: int,
)
    requires
        betters(bests, scores, lowest, exceeds),
        0 < n <= scores.len() <= u32::MAX,
        forall|a: T, b: T, v: bool| #[trigger] call_ensures(exceeds, (a, b), v) ==> v == above(a, b),
        forall|a: T, b: T, c: T| above(a, b) && !#[trigger] above(c, b) ==> #[trigger] above(a, c),
        forall|a: T, b: T| #[trigger] above(a, b) ==> !above(b, a),
        forall|i: int| 0 <= i < scores.len() ==> above(#[trigger] scores[i], lowest),
    ensures
        bests[n].0 < n,
        bests[n].1 == scores[bests[n].0 as int],
        forall|i: int| 0 <= i < n ==> !above(#[trigger] scores[i], bests[n].1),
        forall|i: int| 0 <= i < bests[n].0 ==> above(bests[n].1, #[trigger] scores[i]),
    decreases n,
{
    assert(better_step(bests[n - 1], scores[n - 1], n - 1, bests[(n - 1) + 1], exceeds));
    if n == 1 {
        assert(above(scores[0], lowest));
    } else {
        lemma_best_of_first(bests, scores, lowest, exceeds, above, n - 1);
        let old_best = bests[n - 1].1;
        let s = scores[n - 1];
        if above(s, old_best) {
            assert forall|i: int| 0 <= i < n implies !above(#[trigger] scores[i], s) by {
                if i < n - 1 {
                    assert(!above(scores[i], old_best));
                    assert(above(s, scores[i]));
                }
            }
            assert forall|i: int| 0 <= i < n - 1 implies above(s, #[trigger] scores[i]) by {
                assert(!above(scores[i], old_best));
            }
        }
    }
}

} // verus!
