//! What a backend has to offer, for the work of a layer on one token.
use crate::attention::{are_answers, gqa_decode_attention, gqa_error, GqaAttentionShape};
use crate::backend::{
    heads_norm_error, is_heads_norm, is_norm, linear_error, norm_error, rms_norm_f32,
    rms_norm_heads_f32, CpuMatmulBackend,
};
use crate::error::{ErrorView, InferError};
use crate::flow::outcome;
use crate::numeric::{is_linear, Calc, Op};
use vstd::prelude::*;

verus! {

/// A backend: vectors times tables, norms and attention. Each backend says what can come out, or
/// leaves it open; how many values there are is the same for all.
pub trait MatmulBackend<T: Copy, F: Fn(Op, T, T, T) -> T> {
    /// Whether the product of a vector with every row of a table can come to this.
    open spec fn linear_gives(
        &self,
        input: Seq<T>,
        weight: Seq<T>,
        input_dim: usize,
        output_dim: usize,
        calc: Calc<T, F>,
        r: Result<Seq<T>, ErrorView>,
    ) -> bool {
        true
    }

    /// Whether the norm of a vector can come to this.
    open spec fn norm_gives(
        &self,
        input: Seq<T>,
        weight: Seq<T>,
        eps: u32,
        calc: Calc<T, F>,
        r: Result<Seq<T>, ErrorView>,
    ) -> bool {
        true
    }

    /// Whether the norms of the heads of a vector can come to this.
    open spec fn heads_norm_gives(
        &self,
        input: Seq<T>,
        weight: Seq<T>,
        head_dim: usize,
        eps: u32,
        calc: Calc<T, F>,
        r: Result<Seq<T>, ErrorView>,
    ) -> bool {
        true
    }

    /// Whether the answers to the heads of a query can come to this.
    open spec fn attention_gives(
        &self,
        query: Seq<T>,
        keys: Seq<T>,
        values: Seq<T>,
        shape: GqaAttentionShape,
        calc: Calc<T, F>,
        r: Result<Seq<T>, ErrorView>,
    ) -> bool {
        true
    }

    /// The name of the backend.
    fn name(&self) -> (r: &'static str);

    /// The product of a vector with every row of a table.
    fn linear(
        &self,
        input: &[T],
        weight: &[T],
        input_dim: usize,
        output_dim: usize,
        calc: &Calc<T, F>,
    ) -> (r: Result<Vec<T>, InferError>)
        requires
            calc.works(),
        ensures
            self.linear_gives(input@, weight@, input_dim, output_dim, *calc, outcome(r)),
            r matches Ok(v) ==> v@.len() == output_dim,
    ;

    /// Scales a vector by what comes from its squares, and weights it.
    fn rms_norm(&self, input: &[T], weight: &[T], eps: u32, calc: &Calc<T, F>) -> (r: Result<
        Vec<T>,
        InferError,
    >)
        requires
            calc.works(),
        ensures
            self.norm_gives(input@, weight@, eps, *calc, outcome(r)),
            r matches Ok(v) ==> v@.len() == input@.len(),
    ;

    /// The norm of every head on its own.
    fn rms_norm_heads(
        &self,
        input: &[T],
        weight: &[T],
        head_dim: usize,
        eps: u32,
        calc: &Calc<T, F>,
    ) -> (r: Result<Vec<T>, InferError>)
        requires
            calc.works(),
            head_dim > 0,
        ensures
            self.heads_norm_gives(input@, weight@, head_dim, eps, *calc, outcome(r)),
            r matches Ok(v) ==> v@.len() == input@.len(),
    ;

    /// Lets every head of a query ask all tokens.
    fn gqa_decode_attention(
        &self,
        query_heads: &[T],
        key_tokens: &[T],
        value_tokens: &[T],
        shape: GqaAttentionShape,
        calc: &Calc<T, F>,
    ) -> (r: Result<Vec<T>, InferError>)
        requires
            calc.works(),
        ensures
            self.attention_gives(
                query_heads@,
                key_tokens@,
                value_tokens@,
                shape,
                *calc,
                outcome(r),
            ),
    ;
}

impl<T: Copy, F: Fn(Op, T, T, T) -> T> MatmulBackend<T, F> for CpuMatmulBackend {
    open spec fn linear_gives(
        &self,
        input: Seq<T>,
        weight: Seq<T>,
        input_dim: usize,
        output_dim: usize,
        calc: Calc<T, F>,
        r: Result<Seq<T>, ErrorView>,
    ) -> bool {
        match linear_error(input.len(), weight.len(), input_dim, output_dim) {
            Some(e) => r == Err::<Seq<T>, ErrorView>(e),
            None => r matches Ok(v) && v.len() == output_dim && is_linear(input, weight, calc, v),
        }
    }

    open spec fn norm_gives(
        &self,
        input: Seq<T>,
        weight: Seq<T>,
        eps: u32,
        calc: Calc<T, F>,
        r: Result<Seq<T>, ErrorView>,
    ) -> bool {
        match norm_error(input.len(), weight.len()) {
            Some(e) => r == Err::<Seq<T>, ErrorView>(e),
            None => r matches Ok(v) && is_norm(input, weight, eps, calc, v),
        }
    }

    open spec fn heads_norm_gives(
        &self,
        input: Seq<T>,
        weight: Seq<T>,
        head_dim: usize,
        eps: u32,
        calc: Calc<T, F>,
        r: Result<Seq<T>, ErrorView>,
    ) -> bool {
        match heads_norm_error(input.len(), weight.len(), head_dim) {
            Some(e) => r == Err::<Seq<T>, ErrorView>(e),
            None => r matches Ok(v) && is_heads_norm(input, weight, head_dim as int, eps, calc, v),
        }
    }

    open spec fn attention_gives(
        &self,
        query: Seq<T>,
        keys: Seq<T>,
        values: Seq<T>,
        shape: GqaAttentionShape,
        calc: Calc<T, F>,
        r: Result<Seq<T>, ErrorView>,
    ) -> bool {
        match gqa_error(query.len(), keys.len(), values.len(), shape) {
            Some(e) => r == Err::<Seq<T>, ErrorView>(e),
            None => r matches Ok(v) && are_answers(
                query,
                keys,
                values,
                shape,
                calc,
                v,
                shape.head_count as int,
            ),
        }
    }

    fn name(&self) -> (r: &'static str) {
        CpuMatmulBackend::name(self)
    }

    fn linear(
        &self,
        input: &[T],
        weight: &[T],
        input_dim: usize,
        output_dim: usize,
        calc: &Calc<T, F>,
    ) -> (r: Result<Vec<T>, InferError>) {
        CpuMatmulBackend::linear(self, input, weight, input_dim, output_dim, calc)
    }

    fn rms_norm(&self, input: &[T], weight: &[T], eps: u32, calc: &Calc<T, F>) -> (r: Result<
        Vec<T>,
        InferError,
    >) {
        rms_norm_f32(input, weight, eps, calc)
    }

    fn rms_norm_heads(
        &self,
        input: &[T],
        weight: &[T],
        head_dim: usize,
        eps: u32,
        calc: &Calc<T, F>,
    ) -> (r: Result<Vec<T>, InferError>) {
        rms_norm_heads_f32(input, weight, head_dim, eps, calc)
    }

    fn gqa_decode_attention(
        &self,
        query_heads: &[T],
        key_tokens: &[T],
        value_tokens: &[T],
        shape: GqaAttentionShape,
        calc: &Calc<T, F>,
    ) -> (r: Result<Vec<T>, InferError>) {
        gqa_decode_attention(query_heads, key_tokens, value_tokens, shape, calc)
    }
}

/// The product of a vector with every row of a table, by a backend.
pub fn linear_with_backend<T: Copy, F: Fn(Op, T, T, T) -> T, B: MatmulBackend<T, F>>(
    backend: &B,
    input: &[T],
    weight: &[T],
    input_dim: usize,
    output_dim: usize,
    calc: &Calc<T, F>,
) -> (r: Result<Vec<T>, InferError>)
    requires
        calc.works(),
    ensures
        backend.linear_gives(input@, weight@, input_dim, output_dim, *calc, outcome(r)),
        r matches Ok(v) ==> v@.len() == output_dim,
{
    backend.linear(input, weight, input_dim, output_dim, calc)
}

} // verus!
