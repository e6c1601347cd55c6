//! Frames of codes: one code for each quantizer, each of what those before it left over.
use crate::arith::{lemma_cell, lemma_next_row};
use crate::codec_weights::{CodecF16Weights, CodecQuantizerValues};
use crate::conv::{frames_error, validate_frame_major_len};
use crate::error::{message, mismatch, size_mismatch, ErrorView, InferError};
use crate::numeric::{dot, gathered, pairs, row, row_of, Calc, Op};
use crate::slow_layer::{is_zipped, zip_with};
use crate::slow_sequence::{first_of, no_first_where_none};
use crate::text::{dec_i64, dec_int};
use vstd::prelude::*;
use vstd::slice::slice_to_vec;
use vstd::string::*;

verus! {

/// The weights of all quantizers as values.
#[derive(Debug)]
pub struct CodecValues<T> {
    pub semantic_quantizer: CodecQuantizerValues<T>,
    pub residual_quantizers: Vec<CodecQuantizerValues<T>>,
}

impl<T: Copy> CodecValues<T> {
    /// Whether the values are those of stored weights.
    pub open spec fn come_from<F: Fn(Op, T, T, T) -> T>(
        &self,
        w: CodecF16Weights,
        calc: Calc<T, F>,
    ) -> bool {
        &&& self.semantic_quantizer.come_from_quantizer(w.semantic_quantizer, calc)
        &&& self.residual_quantizers@.len() == w.residual_quantizers@.len()
        &&& forall|i: int|
            0 <= i < self.residual_quantizers@.len() ==> (
            #[trigger] self.residual_quantizers@[i]).come_from_quantizer(
                w.residual_quantizers@[i],
                calc,
            )
    }

    /// How many quantizers there are.
    pub open spec fn count(&self) -> nat {
        self.residual_quantizers@.len() + 1
    }

    /// Quantizer number `c`.
    pub open spec fn quantizer(&self, c: int) -> CodecQuantizerValues<T> {
        if c <= 0 {
            self.semantic_quantizer
        } else {
            self.residual_quantizers@[c - 1]
        }
    }
}

impl CodecF16Weights {
    /// The weights as values.
    pub fn values<T: Copy, F: Fn(Op, T, T, T) -> T>(&self, calc: &Calc<T, F>) -> (r: CodecValues<T>)
        requires
            calc.works(),
        ensures
            r.come_from(*self, *calc),
    {
        let mut out: Vec<CodecQuantizerValues<T>> = Vec::new();
        let mut i: usize = 0;
        while i < self.residual_quantizers.len()
            invariant
                i <= self.residual_quantizers@.len(),
                calc.works(),
                out@.len() == i,
                forall|k: int|
                    0 <= k < i ==> (#[trigger] out@[k]).come_from_quantizer(
                        self.residual_quantizers@[k],
                        *calc,
                    ),
            decreases self.residual_quantizers@.len() - i,
        {
            out.push(self.residual_quantizers[i].values(calc));
            i = i + 1;
        }
        CodecValues {
            semantic_quantizer: self.semantic_quantizer.values(calc),
            residual_quantizers: out,
        }
    }
}

/// How many codes quantizer number `c` has.
pub open spec fn code_count(c: int) -> usize {
    if c <= 0 {
        4096
    } else {
        1024
    }
}

fn count_codes(c: usize) -> (r: usize)
    ensures
        r == code_count(c as int),
{
    if c == 0 {
        4096
    } else {
        1024
    }
}

impl<T: Copy> CodecValues<T> {
    fn get(&self, c: usize) -> (r: &CodecQuantizerValues<T>)
        requires
            c < self.count(),
        ensures
            *r == self.quantizer(c as int),
    {
        if c == 0 {
            &self.semantic_quantizer
        } else {
            &self.residual_quantizers[c - 1]
        }
    }
}

// ---------------------------------------------------------------------
// From codes to frames
// ---------------------------------------------------------------------

/// The frames that codes stand for.
#[derive(Debug)]
pub struct CodecRvqLookupResult<T> {
    pub num_codebooks: u32,
    pub n_frames: u32,
    pub latent_dim: usize,
    pub latents: Vec<T>,
}

/// The code of quantizer `c` for a frame: codes stand quantizer by quantizer.
pub open spec fn code_at(codes: Seq<i32>, n_frames: nat, frame: int, c: int) -> i32 {
    codes[c * n_frames + frame]
}

/// A list of one value over and over.
pub open spec fn repeated<T>(value: T, count: nat) -> Seq<T> {
    Seq::new(count, |i: int| value)
}

fn repeat<T: Copy>(value: T, count: usize) -> (r: Vec<T>)
    ensures
        r@ == repeated(value, count as nat),
{
    let mut out: Vec<T> = Vec::new();
    let mut i: usize = 0;
    while i < count
        invariant
            i <= count,
            out@ == repeated(value, i as nat),
        decreases count - i,
    {
        out.push(value);
        i = i + 1;
        assert(out@ =~= repeated(value, i as nat));
    }
    out
}

impl<T: Copy> CodecValues<T> {
    /// What is wrong with the code of quantizer `c`, if anything.
    pub open spec fn code_error(&self, code: i32, c: int) -> Option<ErrorView> {
        if code < 0 {
            Some(message("codec code must be non-negative, got "@ + dec_int(code as int)))
        } else {
            self.quantizer(c).project_error(code as u32, code_count(c))
        }
    }

    /// What is wrong with each code of a frame, if anything.
    pub open spec fn frame_errors(&self, codes: Seq<i32>, n_frames: nat, frame: int) -> spec_fn(
        int,
    ) -> Option<ErrorView> {
        |c: int| self.code_error(code_at(codes, n_frames, frame, c), c)
    }

    /// What is wrong with each frame of codes, if anything.
    pub open spec fn lookup_errors(&self, codes: Seq<i32>, n_frames: nat) -> spec_fn(int) -> Option<
        ErrorView,
    > {
        |frame: int| first_of(self.frame_errors(codes, n_frames, frame), 0, self.count() as int)
    }

    /// What is wrong with turning codes into frames, if anything.
    pub open spec fn codes_error(&self, codes: Seq<i32>, num_codebooks: u32, n_frames: u32) -> Option<
        ErrorView,
    > {
        if num_codebooks != self.count() {
            Some(mismatch("codec codebook count"@, self.count(), num_codebooks as nat))
        } else if num_codebooks * n_frames > usize::MAX {
            Some(message("codec codes length overflow"@))
        } else if codes.len() != num_codebooks * n_frames {
            Some(
                mismatch("codec codes length"@, (num_codebooks * n_frames) as nat, codes.len()),
            )
        } else {
            first_of(self.lookup_errors(codes, n_frames as nat), 0, n_frames as int)
        }
    }

    /// Whether one list of sums comes from another by what a code stands for.
    pub open spec fn code_adds<F: Fn(Op, T, T, T) -> T>(
        &self,
        code: i32,
        c: int,
        calc: Calc<T, F>,
        before: Seq<T>,
        after: Seq<T>,
    ) -> bool {
        exists|part: Seq<T>|
            #[trigger] self.quantizer(c).is_projected(code as u32, calc, part) && is_zipped(
                before,
                part,
                Op::Plus,
                calc,
                after,
            )
    }

    /// Whether these are the sums along the first quantizers, from zero on.
    pub open spec fn are_sums<F: Fn(Op, T, T, T) -> T>(
        &self,
        codes: Seq<i32>,
        n_frames: nat,
        frame: int,
        calc: Calc<T, F>,
        sums: Seq<Seq<T>>,
    ) -> bool {
        &&& sums.len() >= 1
        &&& sums[0] == repeated(calc.zero, 1024)
        &&& forall|c: int|
            0 <= c < sums.len() - 1 ==> self.code_adds(
                code_at(codes, n_frames, frame, c),
                c,
                calc,
                sums[c],
                #[trigger] sums[c + 1],
            )
    }

    /// Whether a frame is the sum of what its codes stand for.
    pub open spec fn is_frame_of<F: Fn(Op, T, T, T) -> T>(
        &self,
        codes: Seq<i32>,
        n_frames: nat,
        frame: int,
        calc: Calc<T, F>,
        out: Seq<T>,
    ) -> bool {
        exists|sums: Seq<Seq<T>>|
            #[trigger] self.are_sums(codes, n_frames, frame, calc, sums) && sums.len()
                == self.count() + 1 && sums.last() == out
    }

    fn frame_of<F: Fn(Op, T, T, T) -> T>(
        &self,
        codes: &[i32],
        n_frames: usize,
        frame: usize,
        calc: &Calc<T, F>,
    ) -> (r: Result<Vec<T>, InferError>)
        requires
            calc.works(),
            frame < n_frames,
            codes@.len() == self.count() * n_frames,
            self.count() <= u32::MAX,
        ensures
            match r {
                Ok(v) => {
                    &&& first_of(
                        self.frame_errors(codes@, n_frames as nat, frame as int),
                        0,
                        self.count() as int,
                    ) is None
                    &&& self.is_frame_of(codes@, n_frames as nat, frame as int, *calc, v@)
                    &&& v@.len() == 1024
                },
                Err(e) => first_of(
                    self.frame_errors(codes@, n_frames as nat, frame as int),
                    0,
                    self.count() as int,
                ) == Some(e@),
            },
    {
        let count: usize = self.residual_quantizers.len() + 1;
        let ghost errors = self.frame_errors(codes@, n_frames as nat, frame as int);
        let ghost n = n_frames as nat;
        let ghost f = frame as int;
        let mut current = repeat(calc.zero, 1024);
        let ghost mut sums: Seq<Seq<T>> = seq![current@];
        let size: usize = codes.len();
        let mut c: usize = 0;
        while c < count
            invariant
                c <= count,
                count == self.count(),
                calc.works(),
                frame < n_frames,
                size == codes@.len(),
                codes@.len() == count * n_frames,
                n == n_frames,
                f == frame,
                errors == self.frame_errors(codes@, n, f),
                first_of(errors, 0, count as int) == first_of(errors, c as int, count as int),
                self.are_sums(codes@, n, f, *calc, sums),
                sums.len() == c + 1,
                sums.last() == current@,
                current@.len() == 1024,
            decreases count - c,
        {
            proof {
                lemma_cell(c as int, count as int, frame as int, n_frames as int);
                vstd::arithmetic::mul::lemma_mul_nonnegative(c as int, n_frames as int);
            }
            let code: i32 = codes[c * n_frames + frame];
            assert(code == code_at(codes@, n, f, c as int));
            assert(errors(c as int) == self.code_error(code, c as int));
            if code < 0 {
                let digits = dec_i64(code as i64);
                return Err(
                    InferError::Message(
                        String::from_str("codec code must be non-negative, got ").concat(
                            digits.as_str(),
                        ),
                    ),
                );
            }
            let part = match self.get(c).project_code(code as u32, count_codes(c), calc) {
                Err(e) => {
                    return Err(e);
                },
                Ok(v) => v,
            };
            let next = zip_with(current.as_slice(), part.as_slice(), Op::Plus, calc);
            let ghost old_sums = sums;
            proof {
                assert(self.quantizer(c as int).is_projected(code as u32, *calc, part@));
                assert(self.code_adds(code, c as int, *calc, current@, next@));
                sums = sums.push(next@);
                assert forall|k: int| 0 <= k < sums.len() - 1 implies self.code_adds(
                    code_at(codes@, n, f, k),
                    k,
                    *calc,
                    sums[k],
                    #[trigger] sums[k + 1],
                ) by {
                    assert(sums[k] == old_sums[k]);
                    if k < old_sums.len() - 1 {
                        assert(sums[k + 1] == old_sums[k + 1]);
                    }
                }
            }
            current = next;
            c = c + 1;
        }
        assert(self.are_sums(codes@, n, f, *calc, sums));
        Ok(current)
    }
}

/// Turns codes into frames: each the sum of what its codes stand for.
pub fn rvq_lookup_codes<T: Copy, F: Fn(Op, T, T, T) -> T>(
    codes: &[i32],
    num_codebooks: u32,
    n_frames: u32,
    weights: &CodecValues<T>,
    calc: &Calc<T, F>,
) -> (r: Result<CodecRvqLookupResult<T>, InferError>)
    requires
        calc.works(),
        weights.count() <= u32::MAX,
        n_frames * 1024 <= usize::MAX,
    ensures
        match r {
            Ok(v) => {
                &&& weights.codes_error(codes@, num_codebooks, n_frames) is None
                &&& v.num_codebooks == num_codebooks
                &&& v.n_frames == n_frames
                &&& v.latent_dim == 1024
                &&& v.latents@.len() == n_frames * 1024
                &&& forall|f: int|
                    0 <= f < n_frames ==> weights.is_frame_of(
                        codes@,
                        n_frames as nat,
                        f,
                        *calc,
                        #[trigger] row(v.latents@, f, 1024),
                    )
            },
            Err(e) => weights.codes_error(codes@, num_codebooks, n_frames) == Some(e@),
        },
{
    let count: usize = weights.residual_quantizers.len() + 1;
    if num_codebooks as usize != count {
        return Err(size_mismatch("codec codebook count", count, num_codebooks as usize));
    }
    let n: usize = n_frames as usize;
    let size: usize = codes.len();
    match count.checked_mul(n) {
        None => {
            return Err(InferError::text("codec codes length overflow"));
        },
        Some(expected) => {
            if size != expected {
                return Err(size_mismatch("codec codes length", expected, size));
            }
        },
    }
    let ghost errors = weights.lookup_errors(codes@, n as nat);
    let mut latents: Vec<T> = Vec::new();
    let mut f: usize = 0;
    while f < n
        invariant
            f <= n,
            n == n_frames,
            count == num_codebooks,
            calc.works(),
            count == weights.count(),
            weights.count() <= u32::MAX,
            codes@.len() == count * n,
            codes@.len() <= usize::MAX,
            errors == weights.lookup_errors(codes@, n as nat),
            first_of(errors, 0, n as int) == first_of(errors, f as int, n as int),
            latents@.len() == f * 1024,
            forall|k: int|
                0 <= k < f ==> weights.is_frame_of(
                    codes@,
                    n as nat,
                    k,
                    *calc,
                    #[trigger] row(latents@, k, 1024),
                ),
        decreases n - f,
    {
        assert(errors(f as int) == first_of(
            weights.frame_errors(codes@, n as nat, f as int),
            0,
            weights.count() as int,
        ));
        let mut frame = match weights.frame_of(codes, n, f, calc) {
            Err(e) => {
                return Err(e);
            },
            Ok(v) => v,
        };
        let ghost before = latents@;
        let ghost added = frame@;
        latents.append(&mut frame);
        proof {
            assert forall|k: int| 0 <= k < f + 1 implies weights.is_frame_of(
                codes@,
                n as nat,
                k,
                *calc,
                #[trigger] row(latents@, k, 1024),
            ) by {
                if k < f {
                    assert(row(latents@, k, 1024) =~= row(before, k, 1024));
                } else {
                    assert(row(latents@, k, 1024) =~= added);
                }
            }
        }
        f = f + 1;
    }
    Ok(CodecRvqLookupResult { num_codebooks, n_frames, latent_dim: 1024, latents })
}

// ---------------------------------------------------------------------
// From frames to codes
// ---------------------------------------------------------------------

/// The codes of frames, and the length of what they leave over.
#[derive(Debug)]
pub struct CodecVqEncodeResult<T> {
    pub num_codebooks: u32,
    pub n_frames: u32,
    pub latent_dim: usize,
    pub codes: Vec<i32>,
    pub final_residual_l2: Vec<T>,
}

impl<T: Copy> CodecValues<T> {
    /// What is wrong with searching the codes of each quantizer, if anything.
    pub open spec fn search_errors(&self) -> spec_fn(int) -> Option<ErrorView> {
        |c: int| self.quantizer(c).search_error(1024, code_count(c))
    }

    /// What is wrong with turning frames into codes, if anything.
    pub open spec fn encode_error(&self, found: nat, n_frames: u32) -> Option<ErrorView> {
        match frames_error("codec VQ encode input"@, found, n_frames as nat, 1024) {
            Some(e) => Some(e),
            None => if self.count() * n_frames > usize::MAX {
                Some(message("codec VQ codes length overflow"@))
            } else if n_frames > 0 && first_of(self.search_errors(), 0, self.count() as int)
                is Some {
                first_of(self.search_errors(), 0, self.count() as int)
            } else if self.count() > u32::MAX {
                Some(message("codec codebook count overflows u32"@))
            } else {
                None
            },
        }
    }

    /// Whether a code is the nearest to what is left of a frame, and what is left after it.
    pub open spec fn code_takes<F: Fn(Op, T, T, T) -> T, G: Fn(T, T) -> bool>(
        &self,
        code: i32,
        c: int,
        calc: Calc<T, F>,
        exceeds: G,
        before: Seq<T>,
        after: Seq<T>,
    ) -> bool {
        exists|part: Seq<T>|
            {
                &&& 0 <= code < code_count(c)
                &&& self.quantizer(c).is_nearest(
                    before,
                    code_count(c),
                    calc,
                    exceeds,
                    code as u32,
                )
                &&& #[trigger] self.quantizer(c).is_projected(code as u32, calc, part)
                &&& is_zipped(before, part, Op::Minus, calc, after)
            }
    }

    /// Whether codes take a frame apart, and what is left after each of them.
    pub open spec fn are_rests<F: Fn(Op, T, T, T) -> T, G: Fn(T, T) -> bool>(
        &self,
        codes: Seq<i32>,
        frame: Seq<T>,
        calc: Calc<T, F>,
        exceeds: G,
        rests: Seq<Seq<T>>,
    ) -> bool {
        &&& rests.len() == codes.len() + 1
        &&& rests[0] == frame
        &&& forall|c: int|
            0 <= c < codes.len() ==> self.code_takes(
                codes[c],
                c,
                calc,
                exceeds,
                rests[c],
                #[trigger] rests[c + 1],
            )
    }

    /// Whether codes are those of a frame, and the length of what they leave over.
    pub open spec fn are_codes_of<F: Fn(Op, T, T, T) -> T, G: Fn(T, T) -> bool>(
        &self,
        codes: Seq<i32>,
        frame: Seq<T>,
        calc: Calc<T, F>,
        exceeds: G,
        left: T,
    ) -> bool {
        exists|rests: Seq<Seq<T>>|
            #[trigger] self.are_rests(codes, frame, calc, exceeds, rests) && is_size(
                rests.last(),
                calc,
                left,
            )
    }

    fn take_frame<F: Fn(Op, T, T, T) -> T, G: Fn(T, T) -> bool>(
        &self,
        frame: &[T],
        calc: &Calc<T, F>,
        exceeds: &G,
    ) -> (r: Result<(Vec<i32>, T), InferError>)
        requires
            calc.works(),
            forall|a: T, b: T| call_requires(*exceeds, (a, b)),
            frame@.len() == 1024,
            self.count() <= usize::MAX,
        ensures
            match r {
                Ok(p) => {
                    &&& first_of(self.search_errors(), 0, self.count() as int) is None
                    &&& p.0@.len() == self.count()
                    &&& self.are_codes_of(p.0@, frame@, *calc, *exceeds, p.1)
                },
                Err(e) => first_of(self.search_errors(), 0, self.count() as int) == Some(e@),
            },
    {
        let count: usize = self.residual_quantizers.len() + 1;
        let ghost errors = self.search_errors();
        let mut codes: Vec<i32> = Vec::new();
        let mut rest = slice_to_vec(frame);
        let ghost mut rests: Seq<Seq<T>> = seq![rest@];
        let mut c: usize = 0;
        while c < count
            invariant
                c <= count,
                count == self.count(),
                calc.works(),
                forall|a: T, b: T| call_requires(*exceeds, (a, b)),
                errors == self.search_errors(),
                first_of(errors, 0, count as int) == first_of(errors, c as int, count as int),
                self.are_rests(codes@, frame@, *calc, *exceeds, rests),
                codes@.len() == c,
                rests.last() == rest@,
                rest@.len() == 1024,
            decreases count - c,
        {
            assert(errors(c as int) == self.quantizer(c as int).search_error(
                1024,
                code_count(c as int),
            ));
            let (code, part) = match self.get(c).nearest_code_for_residual(
                rest.as_slice(),
                count_codes(c),
                calc,
                exceeds,
            ) {
                Err(e) => {
                    return Err(e);
                },
                Ok(p) => p,
            };
            let next = zip_with(rest.as_slice(), part.as_slice(), Op::Minus, calc);
            let ghost old_rests = rests;
            let ghost old_codes = codes@;
            codes.push(code as i32);
            proof {
                assert(self.quantizer(c as int).is_projected(code, *calc, part@));
                assert((code as i32) as u32 == code);
                assert(self.code_takes(code as i32, c as int, *calc, *exceeds, rest@, next@));
                rests = rests.push(next@);
                assert forall|k: int| 0 <= k < codes@.len() implies self.code_takes(
                    codes@[k],
                    k,
                    *calc,
                    *exceeds,
                    rests[k],
                    #[trigger] rests[k + 1],
                ) by {
                    assert(rests[k] == old_rests[k]);
                    if k < old_codes.len() {
                        assert(codes@[k] == old_codes[k]);
                        assert(rests[k + 1] == old_rests[k + 1]);
                    }
                }
            }
            rest = next;
            c = c + 1;
        }
        let s: T = dot(rest.as_slice(), rest.as_slice(), calc);
        let left: T = calc.one(Op::Root, s);
        proof {
            assert(is_size(rest@, *calc, left));
            assert(self.are_rests(codes@, frame@, *calc, *exceeds, rests));
        }
        Ok((codes, left))
    }
}

/// Whether this is the root of the sum of squares.
pub open spec fn is_size<T: Copy, F: Fn(Op, T, T, T) -> T>(
    values: Seq<T>,
    calc: Calc<T, F>,
    size: T,
) -> bool {
    exists|s: T|
        #[trigger] gathered(pairs(values, values), calc.zero, calc, s) && calc.gives(
            Op::Root,
            s,
            calc.zero,
            calc.zero,
            size,
        )
}

/// The codes of one frame, where codes stand quantizer by quantizer.
pub open spec fn frame_codes(codes: Seq<i32>, n_frames: nat, frame: int, count: nat) -> Seq<i32> {
    Seq::new(count, |c: int| code_at(codes, n_frames, frame, c))
}

fn by_quantizer(frames: &Vec<Vec<i32>>, count: usize) -> (r: Vec<i32>)
    requires
        forall|f: int| 0 <= f < frames@.len() ==> (#[trigger] frames@[f])@.len() == count,
        count * frames@.len() <= usize::MAX,
    ensures
        r@.len() == count * frames@.len(),
        forall|f: int|
            0 <= f < frames@.len() ==> #[trigger] frame_codes(
                r@,
                frames@.len(),
                f,
                count as nat,
            ) == frames@[f]@,
{
    let n: usize = frames.len();
    let mut out: Vec<i32> = Vec::new();
    let mut c: usize = 0;
    assert(0 * n == 0) by (nonlinear_arith);
    while c < count
        invariant
            c <= count,
            n == frames@.len(),
            forall|f: int| 0 <= f < n ==> (#[trigger] frames@[f])@.len() == count,
            out@.len() == c * n,
            forall|b: int, f: int|
                #![trigger code_at(out@, n as nat, f, b)]
                0 <= b < c && 0 <= f < n ==> code_at(out@, n as nat, f, b) == frames@[f]@[b],
        decreases count - c,
    {
        let mut f: usize = 0;
        let ghost base = out@;
        while f < n
            invariant
                f <= n,
                c < count,
                n == frames@.len(),
                forall|g: int| 0 <= g < n ==> (#[trigger] frames@[g])@.len() == count,
                base.len() == c * n,
                out@.len() == base.len() + f,
                out@.take(base.len() as int) == base,
                forall|g: int|
                    0 <= g < f ==> out@[base.len() + g] == (#[trigger] frames@[g])@[c as int],
            decreases n - f,
        {
            let ghost old_out = out@;
            let code: i32 = frames[f][c];
            out.push(code);
            proof {
                assert(out@.take(base.len() as int) =~= old_out.take(base.len() as int));
                assert forall|g: int| 0 <= g < f + 1 implies out@[base.len() + g]
                    == (#[trigger] frames@[g])@[c as int] by {
                    if g < f {
                        assert(out@[base.len() + g] == old_out[base.len() + g]);
                    }
                }
            }
            f = f + 1;
        }
        proof {
            lemma_next_row(c as int, n as int);
            assert forall|b: int, g: int|
                #![trigger code_at(out@, n as nat, g, b)]
                0 <= b < c + 1 && 0 <= g < n implies code_at(out@, n as nat, g, b)
                == frames@[g]@[b] by {
                if b < c {
                    lemma_cell(b, c as int, g, n as int);
                    assert(out@.take(base.len() as int)[b * n + g] == out@[b * n + g]);
                    assert(code_at(base, n as nat, g, b) == frames@[g]@[b]);
                } else {
                    assert(out@[base.len() + g] == frames@[g]@[c as int]);
                }
            }
        }
        c = c + 1;
    }
    assert forall|f: int| 0 <= f < n implies #[trigger] frame_codes(
        out@,
        n as nat,
        f,
        count as nat,
    ) == frames@[f]@ by {
        let mine = frame_codes(out@, n as nat, f, count as nat);
        assert forall|b: int| 0 <= b < count implies mine[b] == frames@[f]@[b] by {
            assert(code_at(out@, n as nat, f, b) == frames@[f]@[b]);
        }
        assert(mine =~= frames@[f]@);
    }
    out
}

/// Turns frames into codes: quantizer by quantizer the nearest code to what is left.
pub fn rvq_encode_latents_nearest<T: Copy, F: Fn(Op, T, T, T) -> T, G: Fn(T, T) -> bool>(
    latents: &[T],
    n_frames: u32,
    weights: &CodecValues<T>,
    calc: &Calc<T, F>,
    exceeds: &G,
) -> (r: Result<CodecVqEncodeResult<T>, InferError>)
    requires
        calc.works(),
        forall|a: T, b: T| call_requires(*exceeds, (a, b)),
        weights.count() <= usize::MAX,
    ensures
        match r {
            Ok(v) => {
                &&& weights.encode_error(latents@.len(), n_frames) is None
                &&& v.num_codebooks == weights.count()
                &&& v.n_frames == n_frames
                &&& v.latent_dim == 1024
                &&& v.codes@.len() == weights.count() * n_frames
                &&& v.final_residual_l2@.len() == n_frames
                &&& forall|f: int|
                    0 <= f < n_frames ==> weights.are_codes_of(
                        frame_codes(v.codes@, n_frames as nat, f, weights.count()),
                        row(latents@, f, 1024),
                        *calc,
                        *exceeds,
                        #[trigger] v.final_residual_l2@[f],
                    )
            },
            Err(e) => weights.encode_error(latents@.len(), n_frames) == Some(e@),
        },
{
    let count: usize = weights.residual_quantizers.len() + 1;
    let n: usize = n_frames as usize;
    match validate_frame_major_len("codec VQ encode input", latents.len(), n, 1024) {
        Err(e) => {
            return Err(e);
        },
        Ok(_) => {},
    }
    if count.checked_mul(n).is_none() {
        return Err(InferError::text("codec VQ codes length overflow"));
    }
    let ghost found = latents@.len();
    let mut frames: Vec<Vec<i32>> = Vec::new();
    let mut left: Vec<T> = Vec::new();
    let mut f: usize = 0;
    while f < n
        invariant
            f <= n,
            n == n_frames,
            calc.works(),
            forall|a: T, b: T| call_requires(*exceeds, (a, b)),
            count == weights.count(),
            found == latents@.len(),
            latents@.len() == n * 1024,
            latents@.len() <= usize::MAX,
            frames_error("codec VQ encode input"@, found, n as nat, 1024) is None,
            count * n <= usize::MAX,
            f > 0 ==> first_of(weights.search_errors(), 0, count as int) is None,
            frames@.len() == f,
            left@.len() == f,
            forall|k: int| 0 <= k < f ==> (#[trigger] frames@[k])@.len() == count,
            forall|k: int|
                0 <= k < f ==> weights.are_codes_of(
                    frames@[k]@,
                    row(latents@, k, 1024),
                    *calc,
                    *exceeds,
                    #[trigger] left@[k],
                ),
        decreases n - f,
    {
        let frame = row_of(latents, f, 1024, Ghost(n as int));
        match weights.take_frame(frame, calc, exceeds) {
            Err(e) => {
                return Err(e);
            },
            Ok((codes, rest)) => {
                frames.push(codes);
                left.push(rest);
            },
        }
        f = f + 1;
    }
    if count as u64 > u32::MAX as u64 {
        return Err(InferError::text("codec codebook count overflows u32"));
    }
    let codes = by_quantizer(&frames, count);
    proof {
        assert forall|k: int| 0 <= k < n_frames implies weights.are_codes_of(
            frame_codes(codes@, n_frames as nat, k, weights.count()),
            row(latents@, k, 1024),
            *calc,
            *exceeds,
            #[trigger] left@[k],
        ) by {
            assert(frame_codes(codes@, n_frames as nat, k, weights.count()) == frames@[k]@);
        }
    }
    Ok(
        CodecVqEncodeResult {
            num_codebooks: count as u32,
            n_frames,
            latent_dim: 1024,
            codes,
            final_residual_l2: left,
        },
    )
}

/// Codes that frames were turned into can be turned back into frames.
pub proof fn encoded_codes_can_be_looked_up<T: Copy, F: Fn(Op, T, T, T) -> T, G: Fn(T, T) -> bool>(
    weights: CodecValues<T>,
    latents: Seq<T>,
    n_frames: u32,
    codes: Seq<i32>,
    left: Seq<T>,
    calc: Calc<T, F>,
    exceeds: G,
)
    requires
        weights.encode_error(latents.len(), n_frames) is None,
        codes.len() == weights.count() * n_frames,
        left.len() == n_frames,
        forall|f: int|
            0 <= f < n_frames ==> weights.are_codes_of(
                frame_codes(codes, n_frames as nat, f, weights.count()),
                row(latents, f, 1024),
                calc,
                exceeds,
                #[trigger] left[f],
            ),
    ensures
        weights.codes_error(codes, weights.count() as u32, n_frames) is None,
{
    let n = n_frames as nat;
    let errors = weights.lookup_errors(codes, n);
    assert forall|f: int| 0 <= f < n implies #[trigger] errors(f) is None by {
        assert(weights.are_codes_of(
            frame_codes(codes, n, f, weights.count()),
            row(latents, f, 1024),
            calc,
            exceeds,
            left[f],
        ));
        let mine = frame_codes(codes, n, f, weights.count());
        let rests = choose|rests: Seq<Seq<T>>|
            #[trigger] weights.are_rests(mine, row(latents, f, 1024), calc, exceeds, rests)
                && is_size(rests.last(), calc, left[f]);
        let inner = weights.frame_errors(codes, n, f);
        assert forall|c: int| 0 <= c < weights.count() implies #[trigger] inner(c) is None by {
            assert(weights.code_takes(mine[c], c, calc, exceeds, rests[c], rests[c + 1]));
            no_first_where_none(weights.search_errors(), 0, weights.count() as int);
            assert(weights.search_errors()(c) is None);
            reveal_with_fuel(crate::tensor::index_error, 2);
        }
        no_first_where_none(inner, 0, weights.count() as int);
    }
    no_first_where_none(errors, 0, n as int);
}

} // verus!
