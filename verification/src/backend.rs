//! Vectors times tables, and norms, over values of any type.
use crate::arith::{lemma_next_row, lemma_rows_monotone};
use crate::error::{message, mismatch, size_mismatch, ErrorView, InferError};
use crate::numeric::{dot, gathered, is_linear, pairs, row, row_of, Calc, Op};
use crate::text::{dec, dec_usize};
use vstd::prelude::*;
use vstd::string::*;

verus! {

/// What is wrong with the sizes of a vector and a table, if anything.
pub open spec fn linear_error(
    input: nat,
    weight: nat,
    input_dim: usize,
    output_dim: usize,
) -> Option<ErrorView> {
    if input != input_dim {
        Some(mismatch("linear input length"@, input_dim as nat, input))
    } else if input_dim * output_dim > usize::MAX {
        Some(message("linear weight length overflow"@))
    } else if weight != input_dim * output_dim {
        Some(mismatch("linear weight length"@, (input_dim * output_dim) as nat, weight))
    } else {
        None
    }
}

/// Checks the sizes of a vector and a table with one row for each output.
pub fn validate_linear_dimensions<T>(
    input: &[T],
    weight: &[T],
    input_dim: usize,
    output_dim: usize,
) -> (r: Result<(), InferError>)
    ensures
        match r {
            Ok(_) => linear_error(input@.len(), weight@.len(), input_dim, output_dim) is None,
            Err(e) => linear_error(input@.len(), weight@.len(), input_dim, output_dim) == Some(e@),
        },
{
    let found: usize = input.len();
    if found != input_dim {
        return Err(size_mismatch("linear input length", input_dim, found));
    }
    match input_dim.checked_mul(output_dim) {
        None => Err(InferError::text("linear weight length overflow")),
        Some(expected) => {
            let size: usize = weight.len();
            if size != expected {
                return Err(size_mismatch("linear weight length", expected, size));
            }
            Ok(())
        },
    }
}

/// Arithmetic on the processor itself.
#[derive(Debug, Clone, Copy)]
pub struct CpuMatmulBackend;

impl CpuMatmulBackend {
    /// The backend that computes one value after another.
    pub fn new() -> (r: CpuMatmulBackend) {
        CpuMatmulBackend
    }

    /// The name of the backend.
    pub fn name(&self) -> (r: &'static str)
        ensures
            r@ == "cpu"@,
    {
        "cpu"
    }

    /// The product of a vector with every row of a table.
    pub fn linear<T: Copy, F: Fn(Op, T, T, T) -> T>(
        &self,
        input: &[T],
        weight: &[T],
        input_dim: usize,
        output_dim: usize,
        calc: &Calc<T, F>,
    ) -> (r: Result<Vec<T>, InferError>)
        requires
            calc.works(),
        ensures
            match r {
                Ok(v) => linear_error(input@.len(), weight@.len(), input_dim, output_dim) is None
                    && v@.len() == output_dim && is_linear(input@, weight@, *calc, v@),
                Err(e) => linear_error(input@.len(), weight@.len(), input_dim, output_dim) == Some(
                    e@,
                ),
            },
    {
        match validate_linear_dimensions(input, weight, input_dim, output_dim) {
            Err(e) => {
                return Err(e);
            },
            Ok(_) => {},
        }
        let mut out: Vec<T> = Vec::new();
        let size: usize = weight.len();
        proof {
            vstd::arithmetic::mul::lemma_mul_is_commutative(input_dim as int, output_dim as int);
        }
        let mut o: usize = 0;
        while o < output_dim
            invariant
                o <= output_dim,
                out@.len() == o,
                input@.len() == input_dim,
                size == weight@.len(),
                weight@.len() == output_dim * input_dim,
                calc.works(),
                is_linear(input@, weight@, *calc, out@),
            decreases output_dim - o,
        {
            let line = row_of(weight, o, input_dim, Ghost(output_dim as int));
            let v: T = dot(input, line, calc);
            let ghost before = out@;
            out.push(v);
            assert forall|k: int| 0 <= k < out@.len() implies gathered(
                pairs(input@, row(weight@, k, input@.len() as int)),
                calc.zero,
                *calc,
                #[trigger] out@[k],
            ) by {
                if k < o {
                    assert(out@[k] == before[k]);
                }
            }
            o = o + 1;
        }
        Ok(out)
    }
}

/// What is wrong with the sizes of a norm, if anything.
pub open spec fn norm_error(input: nat, weight: nat) -> Option<ErrorView> {
    if input == 0 {
        Some(message("rms_norm input is empty"@))
    } else if input != weight {
        Some(
            message(
                "rms_norm length mismatch: input="@ + dec(input) + ", weight="@ + dec(weight),
            ),
        )
    } else {
        None
    }
}

/// Whether the values are the input, scaled by what comes from the sum of its squares, and
/// weighted.
pub open spec fn is_norm<T: Copy, F: Fn(Op, T, T, T) -> T>(
    input: Seq<T>,
    weight: Seq<T>,
    eps: u32,
    calc: Calc<T, F>,
    out: Seq<T>,
) -> bool {
    &&& out.len() == input.len()
    &&& exists|total: T, scale: T|
        {
            &&& #[trigger] gathered(pairs(input, input), calc.zero, calc, total)
            &&& #[trigger] calc.gives(
 Op::NormScale(input.len() as usize, eps), total, calc.zero, calc.zero, scale)
            &&& forall|i: int|
                0 <= i < input.len() ==> calc.gives(Op::Weigh, input[i], scale, weight[i], #[trigger] out[i])
        }
}

/// Scales a vector by what comes from the sum of its squares and its length, and weights it.
pub fn rms_norm_f32<T: Copy, F: Fn(Op, T, T, T) -> T>(input: &[T], weight: &[T], eps: u32, calc: &Calc<T, F>) -> (r: Result<
    Vec<T>,
    InferError,
>)
    requires
        calc.works(),
    ensures
        match r {
            Ok(v) => norm_error(input@.len(), weight@.len()) is None && is_norm(
                input@,
                weight@,
                eps,
 *calc,
                v@,
            ),
            Err(e) => norm_error(input@.len(), weight@.len()) == Some(e@),
        },
{
    let size: usize = input.len();
    if size == 0 {
        return Err(InferError::text("rms_norm input is empty"));
    }
    if size != weight.len() {
        let a = dec_usize(size);
        let b = dec_usize(weight.len());
        return Err(
            InferError::Message(
                String::from_str("rms_norm length mismatch: input=").concat(a.as_str()).concat(
                    ", weight=",
                ).concat(b.as_str()),
            ),
        );
    }
    let total: T = dot(input, input, calc);
    let scale: T = calc.one(Op::NormScale(size, eps), total);
    let mut out: Vec<T> = Vec::new();
    let mut i: usize = 0;
    while i < size
        invariant
            i <= size,
            size == input@.len(),
            size == weight@.len(),
            out@.len() == i,
            calc.works(),
            forall|k: int|
                0 <= k < i ==> calc.gives(Op::Weigh, input@[k], scale, weight@[k], #[trigger] out@[k]),
        decreases size - i,
    {
        let v: T = calc.run(Op::Weigh, input[i], scale, weight[i]);
        out.push(v);
        i = i + 1;
    }
    assert(calc.gives(Op::NormScale(input@.len() as usize, eps), total, calc.zero, calc.zero, scale));
    Ok(out)
}

/// What is wrong with the sizes of a norm over heads, if anything.
pub open spec fn heads_norm_error(input: nat, weight: nat, head_dim: usize) -> Option<ErrorView> {
    if head_dim == 0 || input % (head_dim as nat) != 0 {
        Some(
            message(
                "head RMSNorm input length "@ + dec(input) + " is not a multiple of head_dim "@
                    + dec(head_dim as nat),
            ),
        )
    } else if input == 0 {
        None
    } else {
        norm_error(head_dim as nat, weight)
    }
}

/// Whether every head of `out` is the norm of the same head of the input.
pub open spec fn is_heads_norm<T: Copy, F: Fn(Op, T, T, T) -> T>(
    input: Seq<T>,
    weight: Seq<T>,
    head_dim: int,
    eps: u32,
    calc: Calc<T, F>,
    out: Seq<T>,
) -> bool {
    &&& out.len() == input.len()
    &&& forall|h: int|
        0 <= h < input.len() as int / head_dim ==> is_norm(
            #[trigger] row(input, h, head_dim),
            weight,
            eps,
 calc,
            row(out, h, head_dim),
        )
}

/// The norm of every head on its own.
pub fn rms_norm_heads_f32<T: Copy, F: Fn(Op, T, T, T) -> T>(
    input: &[T],
    weight: &[T],
    head_dim: usize,
    eps: u32,
    calc: &Calc<T, F>,
) -> (r: Result<Vec<T>, InferError>)
    requires
        head_dim == 0 ==> input@.len() > 0,
        calc.works(),
    ensures
        match r {
            Ok(v) => heads_norm_error(input@.len(), weight@.len(), head_dim) is None
                && is_heads_norm(
                input@,
                weight@,
                head_dim as int,
                eps,
 *calc,
                v@,
            ),
            Err(e) => heads_norm_error(input@.len(), weight@.len(), head_dim) == Some(e@),
        },
{
    let size: usize = input.len();
    if head_dim == 0 || size % head_dim != 0 {
        let a = dec_usize(size);
        let b = dec_usize(head_dim);
        return Err(
            InferError::Message(
                String::from_str("head RMSNorm input length ").concat(a.as_str()).concat(
                    " is not a multiple of head_dim ",
                ).concat(b.as_str()),
            ),
        );
    }
    let count: usize = size / head_dim;
    proof {
        vstd::arithmetic::div_mod::lemma_fundamental_div_mod(size as int, head_dim as int);
        vstd::arithmetic::mul::lemma_mul_is_commutative(count as int, head_dim as int);
    }
    let mut out: Vec<T> = Vec::new();
    let mut h: usize = 0;
    while h < count
        invariant
            h <= count,
            head_dim > 0,
            size == input@.len(),
            size == count * head_dim,
            size > 0 || count == 0,
            size % head_dim == 0,
            out@.len() == h * head_dim,
            calc.works(),
            forall|k: int|
                0 <= k < h ==> is_norm(
                    #[trigger] row(input@, k, head_dim as int),
                    weight@,
                    eps,
 *calc,
                    row(out@, k, head_dim as int),
                ),
            h > 0 ==> norm_error(head_dim as nat, weight@.len()) is None,
        decreases count - h,
    {
        proof {
            lemma_next_row(h as int, head_dim as int);
            lemma_rows_monotone(h as int + 1, count as int, head_dim as int);
        }
        let head = row_of(input, h, head_dim, Ghost(count as int));
        match rms_norm_f32(head, weight, eps, calc) {
            Err(e) => {
                return Err(e);
            },
            Ok(part) => {
                let mut part = part;
                let ghost before = out@;
                let ghost new = part@;
                out.append(&mut part);
                proof {
                    crate::numeric::lemma_rows_of_longer(before, new, h as int, head_dim as int);
                }
            },
        }
        h = h + 1;
    }
    Ok(out)
}

} // verus!
