//! The fast transformer: from a hidden state and the codes so far to the logits of the next code.
use crate::arith::lemma_next_row;
use crate::attention::{
    all_turned, apply_rope_normal, are_answers, base_refused, gqa_decode_attention,
    AttentionScale, GqaAttentionShape,
};
use crate::backend::{is_norm, linear_error, norm_error, rms_norm_f32, CpuMatmulBackend};
use crate::error::{infer_outcome, message, ErrorView, InferError};
use crate::graph::ArGraphSpec;
use crate::numeric::{is_linear, Calc, Op};
use crate::sizes::{checked_mul, expect_len, is_finding, len_error, or_else, product_of};
use crate::slow_ar::{joined, joined_size};
use crate::slow_layer::{is_zipped, zip_with};
use crate::slow_sequence::{first_of, lists};
use crate::text::{dec, dec_usize};
use vstd::prelude::*;
use vstd::slice::{slice_subrange, slice_to_vec};
use vstd::string::*;

verus! {

// ---------------------------------------------------------------------
// Shapes
// ---------------------------------------------------------------------

/// The sizes of a fast layer. Rotary base and norm epsilon are kept as bits.
#[derive(Debug, Clone, Copy, PartialEq, Eq, Structural)]
pub struct FastArLayerShape {
    pub hidden_size: usize,
    pub feed_forward_size: usize,
    pub head_count: usize,
    pub head_count_kv: usize,
    pub head_dim: usize,
    pub rope_base: u32,
    pub rms_norm_eps: u32,
    pub attention_qk_norm: bool,
}

impl FastArLayerShape {
    /// The size of all queries.
    pub open spec fn queries(self) -> Result<usize, ErrorView> {
        product_of(self.head_count as nat, self.head_dim as nat, "q_size"@)
    }

    /// The size of all keys, and that of all values.
    pub open spec fn keys(self) -> Result<usize, ErrorView> {
        product_of(self.head_count_kv as nat, self.head_dim as nat, "kv_size"@)
    }

    /// The size of queries, keys and values.
    pub open spec fn all(self) -> Result<usize, ErrorView> {
        joined_size(self.queries(), self.keys())
    }

    /// What is wrong with the sizes, if anything. The base is shown as the given text.
    pub open spec fn error(self, base_text: Seq<char>) -> Option<ErrorView> {
        if self.hidden_size == 0 || self.feed_forward_size == 0 {
            Some(message("fast hidden/feed_forward size must be non-zero"@))
        } else if self.head_count_kv == 0 || self.head_count % self.head_count_kv != 0 {
            Some(
                message(
                    "invalid fast GQA split: heads="@ + dec(self.head_count as nat)
                        + ", kv_heads="@ + dec(self.head_count_kv as nat),
                ),
            )
        } else if self.head_dim == 0 || self.head_dim % 2 != 0 {
            Some(
                message(
                    "fast head_dim must be non-zero and even, got "@ + dec(self.head_dim as nat),
                ),
            )
        } else if base_refused(self.rope_base) {
            Some(message("fast rope_base must be positive, got "@ + base_text))
        } else {
            match self.all() {
                Err(e) => Some(e),
                Ok(_) => None,
            }
        }
    }

    /// The shape of the layers of a transformer.
    pub open spec fn of(spec: ArGraphSpec) -> FastArLayerShape {
        FastArLayerShape {
            hidden_size: spec.embedding_length as usize,
            feed_forward_size: spec.feed_forward_length as usize,
            head_count: spec.head_count as usize,
            head_count_kv: spec.head_count_kv as usize,
            head_dim: spec.head_dim as usize,
            rope_base: spec.rope_freq_base,
            rms_norm_eps: spec.rms_norm_eps,
            attention_qk_norm: spec.attention_qk_norm,
        }
    }

    /// The shape of the layers of a transformer.
    pub fn from_ar_graph_spec(spec: &ArGraphSpec) -> (r: Result<FastArLayerShape, InferError>)
        ensures
            r == Ok::<FastArLayerShape, InferError>(FastArLayerShape::of(*spec)),
    {
        Ok(
            FastArLayerShape {
                hidden_size: spec.embedding_length as usize,
                feed_forward_size: spec.feed_forward_length as usize,
                head_count: spec.head_count as usize,
                head_count_kv: spec.head_count_kv as usize,
                head_dim: spec.head_dim as usize,
                rope_base: spec.rope_freq_base,
                rms_norm_eps: spec.rms_norm_eps,
                attention_qk_norm: spec.attention_qk_norm,
            },
        )
    }

    /// By what scores are multiplied.
    pub open spec fn scale(self) -> AttentionScale {
        AttentionScale::OfHead(self.head_dim)
    }

    /// By what scores are multiplied: one over the root of the size of a head.
    pub fn attn_scale(self) -> (r: AttentionScale)
        ensures
            r == self.scale(),
    {
        AttentionScale::OfHead(self.head_dim)
    }

    /// The size of all query heads together.
    pub fn q_size(self) -> (r: Result<usize, InferError>)
        ensures
            infer_outcome(r, self.queries()),
    {
        checked_mul(self.head_count, self.head_dim, "q_size")
    }

    /// The size of all key heads together.
    pub fn kv_size(self) -> (r: Result<usize, InferError>)
        ensures
            infer_outcome(r, self.keys()),
    {
        checked_mul(self.head_count_kv, self.head_dim, "kv_size")
    }

    /// The size of all query, key and value heads together.
    pub fn wqkv_out(self) -> (r: Result<usize, InferError>)
        ensures
            infer_outcome(r, self.all()),
    {
        joined(self.q_size(), self.kv_size())
    }

    /// Checks the sizes. The base is shown as the given text.
    pub fn validate(self, base_text: &str) -> (r: Result<(), InferError>)
        ensures
            is_finding(r, self.error(base_text@)),
    {
        if self.hidden_size == 0 || self.feed_forward_size == 0 {
            return Err(InferError::text("fast hidden/feed_forward size must be non-zero"));
        }
        if self.head_count_kv == 0 || self.head_count % self.head_count_kv != 0 {
            let a = dec_usize(self.head_count);
            let b = dec_usize(self.head_count_kv);
            return Err(
                InferError::Message(
                    String::from_str("invalid fast GQA split: heads=").concat(a.as_str()).concat(
                        ", kv_heads=",
                    ).concat(b.as_str()),
                ),
            );
        }
        if self.head_dim == 0 || self.head_dim % 2 != 0 {
            let a = dec_usize(self.head_dim);
            return Err(
                InferError::Message(
                    String::from_str("fast head_dim must be non-zero and even, got ").concat(
                        a.as_str(),
                    ),
                ),
            );
        }
        if self.rope_base == 0 || (self.rope_base >= 0x8000_0000 && self.rope_base <= 0xff80_0000) {
            return Err(
                InferError::Message(
                    String::from_str("fast rope_base must be positive, got ").concat(base_text),
                ),
            );
        }
        match self.wqkv_out() {
            Err(e) => Err(e),
            Ok(_) => Ok(()),
        }
    }
}

// ---------------------------------------------------------------------
// One layer
// ---------------------------------------------------------------------

/// The weights of a fast layer as values.
#[derive(Debug)]
pub struct FastArLayerValues<T> {
    pub attention_norm: Vec<T>,
    pub wqkv: Vec<T>,
    pub output: Vec<T>,
    pub ffn_norm: Vec<T>,
    pub feed_forward_w1: Vec<T>,
    pub feed_forward_w2: Vec<T>,
    pub feed_forward_w3: Vec<T>,
}

/// A token whose query, key and value are ready.
#[derive(Debug)]
pub struct PreparedToken<T> {
    pub query: Vec<T>,
    pub key: Vec<T>,
    pub value: Vec<T>,
}

/// Lists one after another.
pub open spec fn flat<T>(rows: Seq<Seq<T>>) -> Seq<T>
    decreases rows.len(),
{
    if rows.len() == 0 {
        Seq::empty()
    } else {
        flat(rows.drop_last()) + rows.last()
    }
}

/// The keys of prepared tokens.
pub open spec fn keys_of<T>(p: Seq<PreparedToken<T>>) -> Seq<Seq<T>> {
    p.map_values(|t: PreparedToken<T>| t.key@)
}

/// The values of prepared tokens.
pub open spec fn values_of<T>(p: Seq<PreparedToken<T>>) -> Seq<Seq<T>> {
    p.map_values(|t: PreparedToken<T>| t.value@)
}

pub(crate) proof fn lemma_flat_size<T>(rows: Seq<Seq<T>>, width: int)
    requires
        forall|i: int| 0 <= i < rows.len() ==> (#[trigger] rows[i]).len() == width,
    ensures
        flat(rows).len() == rows.len() * width,
    decreases rows.len(),
{
    if rows.len() > 0 {
        lemma_flat_size(rows.drop_last(), width);
        assert(rows.last().len() == width);
        lemma_next_row(rows.len() - 1, width);
    }
}

/// The attention shape for the tokens that one can see.
pub open spec fn fast_shape(s: FastArLayerShape, visible: usize) -> GqaAttentionShape {
    GqaAttentionShape {
        head_count: s.head_count,
        head_count_kv: s.head_count_kv,
        head_dim: s.head_dim,
        token_count: visible,
        attn_scale: s.scale(),
    }
}

impl<T: Copy> FastArLayerValues<T> {
    /// What is wrong with preparing a token, if anything.
    pub open spec fn prepare_error(&self, s: FastArLayerShape, hidden: nat) -> Option<ErrorView> {
        or_else(
            len_error("hidden"@, hidden, s.hidden_size as nat),
            or_else(
                norm_error(hidden, self.attention_norm@.len()),
                linear_error(hidden, self.wqkv@.len(), s.hidden_size, s.all()->Ok_0),
            ),
        )
    }

    /// What is wrong with what follows the attention, if anything.
    pub open spec fn finish_error(&self, s: FastArLayerShape) -> Option<ErrorView> {
        let h = s.hidden_size;
        let f = s.feed_forward_size;
        or_else(
            linear_error(
                s.queries()->Ok_0 as nat,
                self.output@.len(),
                s.queries()->Ok_0,
                h,
            ),
            or_else(
                norm_error(h as nat, self.ffn_norm@.len()),
                or_else(
                    linear_error(h as nat, self.feed_forward_w1@.len(), h, f),
                    or_else(
                        linear_error(h as nat, self.feed_forward_w3@.len(), h, f),
                        linear_error(f as nat, self.feed_forward_w2@.len(), f, h),
                    ),
                ),
            ),
        )
    }

    /// What is wrong with preparing each token, if anything.
    pub open spec fn prepare_errors(
        &self,
        s: FastArLayerShape,
        hidden: Seq<Seq<T>>,
    ) -> spec_fn(int) -> Option<ErrorView> {
        |i: int| self.prepare_error(s, hidden[i].len())
    }

    /// What is wrong with a layer and its tokens, if anything.
    pub open spec fn layer_error(&self, s: FastArLayerShape, hidden: Seq<Seq<T>>) -> Option<
        ErrorView,
    > {
        if hidden.len() == 0 {
            Some(message("fast prefill requires at least one token"@))
        } else {
            or_else(
                first_of(self.prepare_errors(s, hidden), 0, hidden.len() as int),
                self.finish_error(s),
            )
        }
    }

    /// Whether query, key and value come from a token's hidden state: its norm through the joined
    /// table, cut in three; queries and keys turned.
    pub open spec fn is_prepared<F: Fn(Op, T, T, T) -> T>(
        &self,
        s: FastArLayerShape,
        hidden: Seq<T>,
        position: usize,
        calc: Calc<T, F>,
        p: PreparedToken<T>,
    ) -> bool {
        let q = s.queries()->Ok_0 as int;
        let kv = s.keys()->Ok_0 as int;
        exists|normalized: Seq<T>, all: Seq<T>|
            {
                &&& is_norm(hidden, self.attention_norm@, s.rms_norm_eps, calc, normalized)
                &&& all.len() == q + 2 * kv
                &&& #[trigger] is_linear(normalized, self.wqkv@, calc, all)
                &&& all_turned(
                    all.subrange(0, q),
                    p.query@,
                    s.head_dim,
                    position,
                    s.rope_base,
                    calc,
                )
                &&& all_turned(
                    all.subrange(q, q + kv),
                    p.key@,
                    s.head_dim,
                    position,
                    s.rope_base,
                    calc,
                )
                &&& p.value@ == all.subrange(q + kv, q + 2 * kv)
            }
    }

    /// Whether the feed-forward part leads from one hidden state to the other.
    pub open spec fn is_fed<F: Fn(Op, T, T, T) -> T>(
        &self,
        s: FastArLayerShape,
        hidden: Seq<T>,
        calc: Calc<T, F>,
        out: Seq<T>,
    ) -> bool {
        exists|normalized: Seq<T>, gate: Seq<T>, up: Seq<T>, active: Seq<T>, back: Seq<T>|
            {
                &&& is_norm(hidden, self.ffn_norm@, s.rms_norm_eps, calc, normalized)
                &&& gate.len() == s.feed_forward_size
                &&& #[trigger] is_linear(normalized, self.feed_forward_w1@, calc, gate)
                &&& up.len() == s.feed_forward_size
                &&& #[trigger] is_linear(normalized, self.feed_forward_w3@, calc, up)
                &&& is_zipped(gate, up, Op::GateOver, calc, active)
                &&& back.len() == s.hidden_size
                &&& #[trigger] is_linear(active, self.feed_forward_w2@, calc, back)
                &&& is_zipped(hidden, back, Op::Plus, calc, out)
            }
    }

    /// Whether a token, asking the tokens that it can see, ends with this hidden state.
    pub open spec fn is_finished<F: Fn(Op, T, T, T) -> T>(
        &self,
        s: FastArLayerShape,
        hidden: Seq<T>,
        query: Seq<T>,
        keys: Seq<T>,
        values: Seq<T>,
        visible: usize,
        calc: Calc<T, F>,
        out: Seq<T>,
    ) -> bool {
        exists|attention: Seq<T>, projected: Seq<T>, middle: Seq<T>|
            {
                &&& are_answers(
                    query,
                    keys,
                    values,
                    fast_shape(s, visible),
                    calc,
                    attention,
                    s.head_count as int,
                )
                &&& projected.len() == s.hidden_size
                &&& #[trigger] is_linear(attention, self.output@, calc, projected)
                &&& is_zipped(hidden, projected, Op::Plus, calc, middle)
                &&& #[trigger] self.is_fed(s, middle, calc, out)
            }
    }

    /// Whether the layer leads from the tokens' hidden states to these: each token asks itself and
    /// those before it.
    pub open spec fn is_layer<F: Fn(Op, T, T, T) -> T>(
        &self,
        s: FastArLayerShape,
        hidden: Seq<Seq<T>>,
        calc: Calc<T, F>,
        out: Seq<Seq<T>>,
    ) -> bool {
        exists|p: Seq<PreparedToken<T>>|
            #[trigger] self.are_prepared(s, hidden, calc, p) && self.are_finished(
                s,
                hidden,
                calc,
                p,
                out,
            )
    }

    /// Whether all tokens are prepared, each at its own position.
    pub open spec fn are_prepared<F: Fn(Op, T, T, T) -> T>(
        &self,
        s: FastArLayerShape,
        hidden: Seq<Seq<T>>,
        calc: Calc<T, F>,
        p: Seq<PreparedToken<T>>,
    ) -> bool {
        &&& p.len() == hidden.len()
        &&& forall|i: int|
            0 <= i < p.len() ==> self.is_prepared(s, hidden[i], i as usize, calc, #[trigger] p[i])
    }

    /// Whether all tokens are finished, each asking itself and those before it.
    pub open spec fn are_finished<F: Fn(Op, T, T, T) -> T>(
        &self,
        s: FastArLayerShape,
        hidden: Seq<Seq<T>>,
        calc: Calc<T, F>,
        p: Seq<PreparedToken<T>>,
        out: Seq<Seq<T>>,
    ) -> bool {
        &&& out.len() == hidden.len()
        &&& forall|i: int|
            0 <= i < out.len() ==> self.is_finished(
                s,
                hidden[i],
                p[i].query@,
                flat(keys_of(p).take(i + 1)),
                flat(values_of(p).take(i + 1)),
                (i + 1) as usize,
                calc,
                #[trigger] out[i],
            )
    }

    fn prepare_token<F: Fn(Op, T, T, T) -> T>(
        &self,
        s: FastArLayerShape,
        hidden: &[T],
        position: usize,
        base_text: &str,
        calc: &Calc<T, F>,
    ) -> (r: Result<PreparedToken<T>, InferError>)
        requires
            calc.works(),
            s.error(base_text@) is None,
        ensures
            match r {
                Ok(p) => {
                    &&& self.prepare_error(s, hidden@.len()) is None
                    &&& self.is_prepared(s, hidden@, position, *calc, p)
                    &&& p.query@.len() == s.queries()->Ok_0
                    &&& p.key@.len() == s.keys()->Ok_0
                    &&& p.value@.len() == s.keys()->Ok_0
                },
                Err(e) => self.prepare_error(s, hidden@.len()) == Some(e@),
            },
    {
        match expect_len("hidden", hidden.len(), s.hidden_size) {
            Err(e) => {
                return Err(e);
            },
            Ok(_) => {},
        }
        let normalized = match rms_norm_f32(
            hidden,
            self.attention_norm.as_slice(),
            s.rms_norm_eps,
            calc,
        ) {
            Err(e) => {
                return Err(e);
            },
            Ok(v) => v,
        };
        let all: usize = match s.wqkv_out() {
            Err(e) => {
                return Err(e);
            },
            Ok(n) => n,
        };
        let qkv = match CpuMatmulBackend::new().linear(
            normalized.as_slice(),
            self.wqkv.as_slice(),
            s.hidden_size,
            all,
            calc,
        ) {
            Err(e) => {
                return Err(e);
            },
            Ok(v) => v,
        };
        let q: usize = match s.q_size() {
            Err(e) => {
                return Err(e);
            },
            Ok(n) => n,
        };
        let kv: usize = match s.kv_size() {
            Err(e) => {
                return Err(e);
            },
            Ok(n) => n,
        };
        let mut query = slice_to_vec(slice_subrange(qkv.as_slice(), 0, q));
        let mut key = slice_to_vec(slice_subrange(qkv.as_slice(), q, q + kv));
        let value = slice_to_vec(slice_subrange(qkv.as_slice(), q + kv, q + 2 * kv));
        proof {
            vstd::arithmetic::div_mod::lemma_mod_multiples_basic(
                s.head_count as int,
                s.head_dim as int,
            );
            vstd::arithmetic::div_mod::lemma_mod_multiples_basic(
                s.head_count_kv as int,
                s.head_dim as int,
            );
        }
        match apply_rope_normal(&mut query, s.head_dim, position, s.rope_base, base_text, calc) {
            Err(e) => {
                return Err(e);
            },
            Ok(_) => {},
        }
        match apply_rope_normal(&mut key, s.head_dim, position, s.rope_base, base_text, calc) {
            Err(e) => {
                return Err(e);
            },
            Ok(_) => {},
        }
        assert(is_linear(normalized@, self.wqkv@, *calc, qkv@));
        Ok(PreparedToken { query, key, value })
    }

    fn finish_token<F: Fn(Op, T, T, T) -> T>(
        &self,
        s: FastArLayerShape,
        hidden: &[T],
        query: &[T],
        keys: &[T],
        values: &[T],
        visible: usize,
        base_text: Ghost<Seq<char>>,
        calc: &Calc<T, F>,
    ) -> (r: Result<Vec<T>, InferError>)
        requires
            calc.works(),
            s.error(base_text@) is None,
            hidden@.len() == s.hidden_size,
            query@.len() == s.queries()->Ok_0,
            visible > 0,
            keys@.len() == visible * s.keys()->Ok_0,
            values@.len() == visible * s.keys()->Ok_0,
            keys@.len() <= usize::MAX,
        ensures
            match r {
                Ok(v) => self.finish_error(s) is None && self.is_finished(
                    s,
                    hidden@,
                    query@,
                    keys@,
                    values@,
                    visible,
                    *calc,
                    v@,
                ) && v@.len() == s.hidden_size,
                Err(e) => self.finish_error(s) == Some(e@),
            },
    {
        let shape = GqaAttentionShape {
            head_count: s.head_count,
            head_count_kv: s.head_count_kv,
            head_dim: s.head_dim,
            token_count: visible,
            attn_scale: s.attn_scale(),
        };
        proof {
            let kv = s.keys()->Ok_0 as int;
            let rows = visible * s.head_count_kv;
            assert(visible * (s.head_count_kv * s.head_dim) == (visible * s.head_count_kv)
                * s.head_dim) by (nonlinear_arith);
            assert(rows <= rows * s.head_dim) by (nonlinear_arith)
                requires
                    rows >= 0,
                    s.head_dim >= 1,
            ;
        }
        let attention = match gqa_decode_attention(query, keys, values, shape, calc) {
            Err(e) => {
                assert(false);
                return Err(e);
            },
            Ok(v) => v,
        };
        let q: usize = match s.q_size() {
            Err(e) => {
                return Err(e);
            },
            Ok(n) => n,
        };
        let projected = match CpuMatmulBackend::new().linear(
            attention.as_slice(),
            self.output.as_slice(),
            q,
            s.hidden_size,
            calc,
        ) {
            Err(e) => {
                return Err(e);
            },
            Ok(v) => v,
        };
        let middle = zip_with(hidden, projected.as_slice(), Op::Plus, calc);
        match self.forward_feed_forward(s, middle.as_slice(), calc) {
            Err(e) => Err(e),
            Ok(v) => {
                assert(is_linear(attention@, self.output@, *calc, projected@));
                assert(self.is_fed(s, middle@, *calc, v@));
                Ok(v)
            },
        }
    }

    fn forward_feed_forward<F: Fn(Op, T, T, T) -> T>(
        &self,
        s: FastArLayerShape,
        hidden: &[T],
        calc: &Calc<T, F>,
    ) -> (r: Result<Vec<T>, InferError>)
        requires
            calc.works(),
            hidden@.len() == s.hidden_size,
        ensures
            ({
                let h = s.hidden_size;
                let f = s.feed_forward_size;
                let error = or_else(
                    norm_error(h as nat, self.ffn_norm@.len()),
                    or_else(
                        linear_error(h as nat, self.feed_forward_w1@.len(), h, f),
                        or_else(
                            linear_error(h as nat, self.feed_forward_w3@.len(), h, f),
                            linear_error(f as nat, self.feed_forward_w2@.len(), f, h),
                        ),
                    ),
                );
                match r {
                    Ok(v) => error is None && self.is_fed(s, hidden@, *calc, v@) && v@.len()
                        == s.hidden_size,
                    Err(e) => error == Some(e@),
                }
            }),
    {
        let backend = CpuMatmulBackend::new();
        let normalized = match rms_norm_f32(
            hidden,
            self.ffn_norm.as_slice(),
            s.rms_norm_eps,
            calc,
        ) {
            Err(e) => {
                return Err(e);
            },
            Ok(v) => v,
        };
        let gate = match backend.linear(
            normalized.as_slice(),
            self.feed_forward_w1.as_slice(),
            s.hidden_size,
            s.feed_forward_size,
            calc,
        ) {
            Err(e) => {
                return Err(e);
            },
            Ok(v) => v,
        };
        let up = match backend.linear(
            normalized.as_slice(),
            self.feed_forward_w3.as_slice(),
            s.hidden_size,
            s.feed_forward_size,
            calc,
        ) {
            Err(e) => {
                return Err(e);
            },
            Ok(v) => v,
        };
        let active = zip_with(gate.as_slice(), up.as_slice(), Op::GateOver, calc);
        let back = match backend.linear(
            active.as_slice(),
            self.feed_forward_w2.as_slice(),
            s.feed_forward_size,
            s.hidden_size,
            calc,
        ) {
            Err(e) => {
                return Err(e);
            },
            Ok(v) => v,
        };
        let out = zip_with(hidden, back.as_slice(), Op::Plus, calc);
        proof {
            assert(is_linear(normalized@, self.feed_forward_w1@, *calc, gate@));
            assert(is_linear(normalized@, self.feed_forward_w3@, *calc, up@));
            assert(is_linear(active@, self.feed_forward_w2@, *calc, back@));
        }
        Ok(out)
    }

    /// Lets the layer work on tokens at once.
    pub fn forward_prefill<F: Fn(Op, T, T, T) -> T>(
        &self,
        s: FastArLayerShape,
        hidden_tokens: &Vec<Vec<T>>,
        base_text: &str,
        calc: &Calc<T, F>,
    ) -> (r: Result<Vec<Vec<T>>, InferError>)
        requires
            calc.works(),
            s.error(base_text@) is None,
        ensures
            match r {
                Ok(out) => {
                    &&& self.layer_error(s, lists(hidden_tokens@)) is None
                    &&& self.is_layer(s, lists(hidden_tokens@), *calc, lists(out@))
                    &&& out@.len() == hidden_tokens@.len()
                    &&& forall|i: int|
                        0 <= i < out@.len() ==> (#[trigger] out@[i])@.len() == s.hidden_size
                },
                Err(e) => self.layer_error(s, lists(hidden_tokens@)) == Some(e@),
            },
    {
        let n: usize = hidden_tokens.len();
        if n == 0 {
            return Err(InferError::text("fast prefill requires at least one token"));
        }
        let ghost hidden = lists(hidden_tokens@);
        let ghost f = self.prepare_errors(s, hidden);
        let mut prepared: Vec<PreparedToken<T>> = Vec::new();
        let mut i: usize = 0;
        while i < n
            invariant
                i <= n,
                n == hidden_tokens@.len(),
                calc.works(),
                s.error(base_text@) is None,
                hidden == lists(hidden_tokens@),
                f == self.prepare_errors(s, hidden),
                first_of(f, 0, n as int) == first_of(f, i as int, n as int),
                self.layer_error(s, hidden) == or_else(
                    first_of(f, 0, n as int),
                    self.finish_error(s),
                ),
                prepared@.len() == i,
                forall|k: int|
                    0 <= k < i ==> self.is_prepared(
                        s,
                        hidden[k],
                        k as usize,
                        *calc,
                        #[trigger] prepared@[k],
                    ) && prepared@[k].query@.len() == s.queries()->Ok_0 && prepared@[k].key@.len()
                        == s.keys()->Ok_0 && prepared@[k].value@.len() == s.keys()->Ok_0
                        && hidden[k].len() == s.hidden_size,
            decreases n - i,
        {
            let ghost here = f(i as int);
            match self.prepare_token(s, hidden_tokens[i].as_slice(), i, base_text, calc) {
                Err(e) => {
                    assert(here == Some(e@));
                    return Err(e);
                },
                Ok(p) => {
                    assert(here is None);
                    prepared.push(p);
                },
            }
            i = i + 1;
        }
        assert(self.are_prepared(s, hidden, *calc, prepared@));
        let mut keys: Vec<T> = Vec::new();
        let mut values: Vec<T> = Vec::new();
        let mut out: Vec<Vec<T>> = Vec::new();
        let ghost all_keys = keys_of(prepared@);
        let ghost all_values = values_of(prepared@);
        assert(all_keys.take(0) =~= Seq::empty());
        assert(all_values.take(0) =~= Seq::empty());
        let mut k: usize = 0;
        while k < n
            invariant
                k <= n,
                n == hidden_tokens@.len(),
                n == prepared@.len(),
                calc.works(),
                s.error(base_text@) is None,
                hidden == lists(hidden_tokens@),
                all_keys == keys_of(prepared@),
                all_values == values_of(prepared@),
                self.layer_error(s, hidden) == self.finish_error(s),
                k > 0 ==> self.finish_error(s) is None,
                forall|j: int|
                    0 <= j < n ==> (#[trigger] prepared@[j]).query@.len() == s.queries()->Ok_0
                        && prepared@[j].key@.len() == s.keys()->Ok_0 && prepared@[j].value@.len()
                        == s.keys()->Ok_0 && hidden[j].len() == s.hidden_size,
                keys@ == flat(all_keys.take(k as int)),
                values@ == flat(all_values.take(k as int)),
                out@.len() == k,
                forall|j: int|
                    0 <= j < k ==> self.is_finished(
                        s,
                        hidden[j],
                        prepared@[j].query@,
                        flat(all_keys.take(j + 1)),
                        flat(all_values.take(j + 1)),
                        (j + 1) as usize,
                        *calc,
                        (#[trigger] out@[j])@,
                    ) && out@[j]@.len() == s.hidden_size,
            decreases n - k,
        {
            let mut key = slice_to_vec(prepared[k].key.as_slice());
            let mut value = slice_to_vec(prepared[k].value.as_slice());
            keys.append(&mut key);
            values.append(&mut value);
            proof {
                let next_keys = all_keys.take(k as int + 1);
                let next_values = all_values.take(k as int + 1);
                assert(next_keys.drop_last() =~= all_keys.take(k as int));
                assert(next_values.drop_last() =~= all_values.take(k as int));
                assert(next_keys.last() == prepared@[k as int].key@);
                assert(next_values.last() == prepared@[k as int].value@);
                lemma_flat_size(next_keys, s.keys()->Ok_0 as int);
                lemma_flat_size(next_values, s.keys()->Ok_0 as int);
            }
            let size: usize = keys.len();
            match self.finish_token(
                s,
                hidden_tokens[k].as_slice(),
                prepared[k].query.as_slice(),
                keys.as_slice(),
                values.as_slice(),
                k + 1,
                Ghost(base_text@),
                calc,
            ) {
                Err(e) => {
                    return Err(e);
                },
                Ok(v) => {
                    out.push(v);
                },
            }
            k = k + 1;
        }
        assert(self.are_finished(s, hidden, *calc, prepared@, lists(out@)));
        Ok(out)
    }
}

} // verus!
