//! One layer of the slow transformer, carried out token by token.
use crate::attention::{
    all_turned, are_answers, cache_attention_error, cache_shape, first_rows, write_error, written,
    CacheView, SlowArKvCache,
};
use crate::backend::{is_heads_norm, is_norm, CpuMatmulBackend};
use crate::error::{message, ErrorView, InferError};
use crate::numeric::{is_linear, Calc, Op};
use crate::sizes::{expect_len, expect_table, is_finding, len_error, or_else, table_error};
use crate::slow_ar::{SlowArDecodeProfile, SlowArLayerShape};
use crate::slow_backend::{
    lemma_cpu_decodes, lemma_cpu_feeds, lemma_cpu_finishes, lemma_cpu_prepares, seen,
};
use crate::text::{dec, dec_usize};
use vstd::prelude::*;
use vstd::string::*;

verus! {

/// The weights of a slow layer.
#[derive(Debug)]
pub struct SlowArLayerSkeleton<'a, T> {
    pub shape: SlowArLayerShape,
    pub attention_norm_weight: &'a [T],
    pub q_norm_weight: &'a [T],
    pub k_norm_weight: &'a [T],
    pub wqkv_weight: &'a [T],
    pub output_weight: &'a [T],
    pub ffn_norm_weight: &'a [T],
    pub feed_forward_w1_weight: &'a [T],
    pub feed_forward_w2_weight: &'a [T],
    pub feed_forward_w3_weight: &'a [T],
}

/// The weights of a slow layer as mathematical values.
pub ghost struct LayerView<T> {
    pub shape: SlowArLayerShape,
    pub attention_norm_weight: Seq<T>,
    pub q_norm_weight: Seq<T>,
    pub k_norm_weight: Seq<T>,
    pub wqkv_weight: Seq<T>,
    pub output_weight: Seq<T>,
    pub ffn_norm_weight: Seq<T>,
    pub feed_forward_w1_weight: Seq<T>,
    pub feed_forward_w2_weight: Seq<T>,
    pub feed_forward_w3_weight: Seq<T>,
}

impl<'a, T> View for SlowArLayerSkeleton<'a, T> {
    type V = LayerView<T>;

    open spec fn view(&self) -> LayerView<T> {
        LayerView {
            shape: self.shape,
            attention_norm_weight: self.attention_norm_weight@,
            q_norm_weight: self.q_norm_weight@,
            k_norm_weight: self.k_norm_weight@,
            wqkv_weight: self.wqkv_weight@,
            output_weight: self.output_weight@,
            ffn_norm_weight: self.ffn_norm_weight@,
            feed_forward_w1_weight: self.feed_forward_w1_weight@,
            feed_forward_w2_weight: self.feed_forward_w2_weight@,
            feed_forward_w3_weight: self.feed_forward_w3_weight@,
        }
    }
}

/// What a layer's attention makes of one token.
#[derive(Debug)]
pub struct SlowArLayerForwardOutput<T> {
    pub normalized: Vec<T>,
    pub query: Vec<T>,
    pub key: Vec<T>,
    pub value: Vec<T>,
    pub attention: Vec<T>,
    pub projected: Vec<T>,
    pub hidden: Vec<T>,
}

/// What a layer's feed-forward part makes of one token.
#[derive(Debug)]
pub struct SlowArLayerFeedForwardOutput<T> {
    pub normalized: Vec<T>,
    pub gate: Vec<T>,
    pub up: Vec<T>,
    pub activated: Vec<T>,
    pub projected: Vec<T>,
    pub hidden: Vec<T>,
}

/// What a whole layer makes of one token.
#[derive(Debug)]
pub struct SlowArLayerBlockOutput<T> {
    pub attention: SlowArLayerForwardOutput<T>,
    pub feed_forward: SlowArLayerFeedForwardOutput<T>,
    pub hidden: Vec<T>,
}

/// A token whose query, key and value are ready.
#[derive(Debug)]
pub struct SlowArLayerPreparedToken<T> {
    pub normalized: Vec<T>,
    pub query: Vec<T>,
    pub key: Vec<T>,
    pub value: Vec<T>,
}

// ---------------------------------------------------------------------
// Values one by one
// ---------------------------------------------------------------------

/// Whether the values come from the pairs of two lists by one operation.
pub open spec fn is_zipped<T: Copy, F: Fn(Op, T, T, T) -> T>(
    a: Seq<T>,
    b: Seq<T>,
    o: Op,
    calc: Calc<T, F>,
    out: Seq<T>,
) -> bool {
    &&& out.len() == a.len()
    &&& forall|i: int|
        0 <= i < a.len() ==> calc.gives(o, a[i], b[i], calc.zero, #[trigger] out[i])
}

/// Carries out one operation on the pairs of two lists of the same length.
pub fn zip_with<T: Copy, F: Fn(Op, T, T, T) -> T>(
    a: &[T],
    b: &[T],
    o: Op,
    calc: &Calc<T, F>,
) -> (r: Vec<T>)
    requires
        calc.works(),
        a@.len() == b@.len(),
    ensures
        is_zipped(a@, b@, o, *calc, r@),
{
    let mut out: Vec<T> = Vec::new();
    let mut i: usize = 0;
    while i < a.len()
        invariant
            i <= a@.len(),
            a@.len() == b@.len(),
            calc.works(),
            out@.len() == i,
            forall|k: int|
                0 <= k < i ==> calc.gives(o, a@[k], b@[k], calc.zero, #[trigger] out@[k]),
        decreases a@.len() - i,
    {
        let v: T = calc.two(o, a[i], b[i]);
        out.push(v);
        i = i + 1;
    }
    out
}

/// Gates one list by another.
pub fn swiglu_split<T: Copy, F: Fn(Op, T, T, T) -> T>(
    gate: &[T],
    up: &[T],
    calc: &Calc<T, F>,
) -> (r: Result<Vec<T>, InferError>)
    requires
        calc.works(),
    ensures
        match r {
            Ok(v) => gate@.len() == up@.len() && is_zipped(gate@, up@, Op::Gate, *calc, v@),
            Err(e) => gate@.len() != up@.len() && e@ == message(
                "SwiGLU length mismatch: gate="@ + dec(gate@.len()) + " up="@ + dec(up@.len()),
            ),
        },
{
    if gate.len() != up.len() {
        let a = dec_usize(gate.len());
        let b = dec_usize(up.len());
        return Err(
            InferError::Message(
                String::from_str("SwiGLU length mismatch: gate=").concat(a.as_str()).concat(
                    " up=",
                ).concat(b.as_str()),
            ),
        );
    }
    Ok(zip_with(gate, up, Op::Gate, calc))
}

// ---------------------------------------------------------------------
// What a layer does
// ---------------------------------------------------------------------

impl<T: Copy> LayerView<T> {
    /// What is wrong with the weights or a hidden state of the given size, if anything.
    pub open spec fn error(self, hidden: nat, base_text: Seq<char>) -> Option<ErrorView> {
        let s = self.shape;
        let h = s.hidden_size as nat;
        let f = s.feed_forward_size as nat;
        or_else(
            s.error(base_text),
            or_else(
                len_error("hidden"@, hidden, h),
                or_else(
                    len_error("attention_norm_weight"@, self.attention_norm_weight.len(), h),
                    or_else(
                        len_error("q_norm_weight"@, self.q_norm_weight.len(), s.head_dim as nat),
                        or_else(
                            len_error(
                                "k_norm_weight"@,
                                self.k_norm_weight.len(),
                                s.head_dim as nat,
                            ),
                            or_else(
                                table_error(
                                    "wqkv_weight"@,
                                    self.wqkv_weight.len(),
                                    h,
                                    s.all()->Ok_0 as nat,
                                ),
                                or_else(
                                    table_error(
                                        "output_weight"@,
                                        self.output_weight.len(),
                                        s.queries()->Ok_0 as nat,
                                        h,
                                    ),
                                    or_else(
                                        len_error(
                                            "ffn_norm_weight"@,
                                            self.ffn_norm_weight.len(),
                                            h,
                                        ),
                                        or_else(
                                            table_error(
                                                "feed_forward_w1_weight"@,
                                                self.feed_forward_w1_weight.len(),
                                                h,
                                                f,
                                            ),
                                            or_else(
                                                table_error(
                                                    "feed_forward_w2_weight"@,
                                                    self.feed_forward_w2_weight.len(),
                                                    f,
                                                    h,
                                                ),
                                                table_error(
                                                    "feed_forward_w3_weight"@,
                                                    self.feed_forward_w3_weight.len(),
                                                    h,
                                                    f,
                                                ),
                                            ),
                                        ),
                                    ),
                                ),
                            ),
                        ),
                    ),
                ),
            ),
        )
    }

    /// Whether query, key and value come from the hidden state of a token at a position: its norm
    /// through the joined table, cut in three; queries and keys normed head by head and turned.
    pub open spec fn is_prepared<F: Fn(Op, T, T, T) -> T>(
        self,
        hidden: Seq<T>,
        position: usize,
        calc: Calc<T, F>,
        normalized: Seq<T>,
        query: Seq<T>,
        key: Seq<T>,
        value: Seq<T>,
    ) -> bool {
        let s = self.shape;
        let q = s.queries()->Ok_0 as int;
        let kv = s.keys()->Ok_0 as int;
        &&& is_norm(hidden, self.attention_norm_weight, s.rms_norm_eps, calc, normalized)
        &&& exists|all: Seq<T>, q_flat: Seq<T>, k_flat: Seq<T>|
            {
                &&& all.len() == q + 2 * kv
                &&& #[trigger] is_linear(normalized, self.wqkv_weight, calc, all)
                &&& is_heads_norm(
                    all.subrange(0, q),
                    self.q_norm_weight,
                    s.head_dim as int,
                    s.rms_norm_eps,
                    calc,
                    q_flat,
                )
                &&& is_heads_norm(
                    all.subrange(q, q + kv),
                    self.k_norm_weight,
                    s.head_dim as int,
                    s.rms_norm_eps,
                    calc,
                    k_flat,
                )
                &&& #[trigger] all_turned(q_flat, query, s.head_dim, position, s.rope_base, calc)
                &&& #[trigger] all_turned(k_flat, key, s.head_dim, position, s.rope_base, calc)
                &&& value == all.subrange(q + kv, q + 2 * kv)
            }
    }

    /// Whether attention, projection and new hidden state come from a query and the cache.
    pub open spec fn is_finished<F: Fn(Op, T, T, T) -> T>(
        self,
        hidden: Seq<T>,
        query: Seq<T>,
        c: CacheView<T>,
        layer: usize,
        visible: usize,
        calc: Calc<T, F>,
        attention: Seq<T>,
        projected: Seq<T>,
        out: Seq<T>,
    ) -> bool {
        &&& are_answers(
            query,
            first_rows(c, c.keys, layer, visible as int),
            first_rows(c, c.values, layer, visible as int),
            cache_shape(c, self.shape.head_count, visible, self.shape.scale()),
            calc,
            attention,
            self.shape.head_count as int,
        )
        &&& projected.len() == self.shape.hidden_size
        &&& is_linear(attention, self.output_weight, calc, projected)
        &&& is_zipped(hidden, projected, Op::Plus, calc, out)
    }

    /// Whether the feed-forward part gives these values.
    pub open spec fn is_fed<F: Fn(Op, T, T, T) -> T>(
        self,
        hidden: Seq<T>,
        calc: Calc<T, F>,
        o: SlowArLayerFeedForwardOutput<T>,
    ) -> bool {
        &&& is_norm(hidden, self.ffn_norm_weight, self.shape.rms_norm_eps, calc, o.normalized@)
        &&& o.gate@.len() == self.shape.feed_forward_size
        &&& is_linear(o.normalized@, self.feed_forward_w1_weight, calc, o.gate@)
        &&& o.up@.len() == self.shape.feed_forward_size
        &&& is_linear(o.normalized@, self.feed_forward_w3_weight, calc, o.up@)
        &&& is_zipped(o.gate@, o.up@, Op::Gate, calc, o.activated@)
        &&& o.projected@.len() == self.shape.hidden_size
        &&& is_linear(o.activated@, self.feed_forward_w2_weight, calc, o.projected@)
        &&& is_zipped(hidden, o.projected@, Op::Plus, calc, o.hidden@)
    }

    /// What is wrong with decoding one token, if anything.
    pub open spec fn decode_error(
        self,
        hidden: nat,
        c: CacheView<T>,
        layer: usize,
        position: usize,
        base_text: Seq<char>,
    ) -> Option<ErrorView> {
        or_else(
            self.error(hidden, base_text),
            or_else(
                self.store_error(c, layer, position),
                self.ask_error(c, layer, position),
            ),
        )
    }

    /// What is wrong with storing a token's key and value, if anything.
    pub open spec fn store_error(
        self,
        c: CacheView<T>,
        layer: usize,
        position: usize,
    ) -> Option<ErrorView> {
        write_error(
            c,
            layer,
            position,
            self.shape.keys()->Ok_0 as nat,
            self.shape.keys()->Ok_0 as nat,
        )
    }

    /// What is wrong with asking the tokens up to a position, if anything.
    pub open spec fn ask_error(
        self,
        c: CacheView<T>,
        layer: usize,
        position: usize,
    ) -> Option<ErrorView> {
        cache_attention_error(
            c,
            layer,
            (position + 1) as usize,
            self.shape.queries()->Ok_0 as nat,
            self.shape.head_count,
        )
    }

    /// Whether a token's output is what attention makes of it, given the cache that holds it.
    pub open spec fn is_attended<F: Fn(Op, T, T, T) -> T>(
        self,
        hidden: Seq<T>,
        c: CacheView<T>,
        layer: usize,
        position: usize,
        calc: Calc<T, F>,
        o: SlowArLayerForwardOutput<T>,
    ) -> bool {
        &&& self.is_prepared(
            hidden,
            position,
            calc,
            o.normalized@,
            o.query@,
            o.key@,
            o.value@,
        )
        &&& self.is_finished(
            hidden,
            o.query@,
            c,
            layer,
            (position + 1) as usize,
            calc,
            o.attention@,
            o.projected@,
            o.hidden@,
        )
    }

    /// Whether key and value of a token were stored.
    pub open spec fn stored_something<F: Fn(Op, T, T, T) -> T>(
        self,
        hidden: Seq<T>,
        before: CacheView<T>,
        layer: usize,
        position: usize,
        calc: Calc<T, F>,
        after: CacheView<T>,
    ) -> bool {
        exists|normalized: Seq<T>, query: Seq<T>, key: Seq<T>, value: Seq<T>|
            #[trigger] self.is_prepared(hidden, position, calc, normalized, query, key, value)
                && after == written(before, layer, position, key, value)
    }
}

impl<'a, T: Copy> SlowArLayerSkeleton<'a, T> {
    /// Checks the weights and the size of a hidden state.
    pub fn validate(&self, hidden: &[T], base_text: &str) -> (r: Result<(), InferError>)
        ensures
            is_finding(r, self@.error(hidden@.len(), base_text@)),
    {
        let s = self.shape;
        match s.validate(base_text) {
            Err(e) => {
                return Err(e);
            },
            Ok(_) => {},
        }
        let all: usize = match s.wqkv_out() {
            Err(e) => {
                return Err(e);
            },
            Ok(n) => n,
        };
        let q: usize = match s.q_size() {
            Err(e) => {
                return Err(e);
            },
            Ok(n) => n,
        };
        match expect_len("hidden", hidden.len(), s.hidden_size) {
            Err(e) => {
                return Err(e);
            },
            Ok(_) => {},
        }
        match expect_len(
            "attention_norm_weight",
            self.attention_norm_weight.len(),
            s.hidden_size,
        ) {
            Err(e) => {
                return Err(e);
            },
            Ok(_) => {},
        }
        match expect_len("q_norm_weight", self.q_norm_weight.len(), s.head_dim) {
            Err(e) => {
                return Err(e);
            },
            Ok(_) => {},
        }
        match expect_len("k_norm_weight", self.k_norm_weight.len(), s.head_dim) {
            Err(e) => {
                return Err(e);
            },
            Ok(_) => {},
        }
        match expect_table("wqkv_weight", self.wqkv_weight.len(), s.hidden_size, all) {
            Err(e) => {
                return Err(e);
            },
            Ok(_) => {},
        }
        match expect_table("output_weight", self.output_weight.len(), q, s.hidden_size) {
            Err(e) => {
                return Err(e);
            },
            Ok(_) => {},
        }
        match expect_len("ffn_norm_weight", self.ffn_norm_weight.len(), s.hidden_size) {
            Err(e) => {
                return Err(e);
            },
            Ok(_) => {},
        }
        match expect_table(
            "feed_forward_w1_weight",
            self.feed_forward_w1_weight.len(),
            s.hidden_size,
            s.feed_forward_size,
        ) {
            Err(e) => {
                return Err(e);
            },
            Ok(_) => {},
        }
        match expect_table(
            "feed_forward_w2_weight",
            self.feed_forward_w2_weight.len(),
            s.feed_forward_size,
            s.hidden_size,
        ) {
            Err(e) => {
                return Err(e);
            },
            Ok(_) => {},
        }
        expect_table(
            "feed_forward_w3_weight",
            self.feed_forward_w3_weight.len(),
            s.hidden_size,
            s.feed_forward_size,
        )
    }

    /// Carries out the feed-forward part on one token.
    pub fn forward_feed_forward<F: Fn(Op, T, T, T) -> T>(
        &self,
        hidden: &[T],
        base_text: &str,
        calc: &Calc<T, F>,
    ) -> (r: Result<SlowArLayerFeedForwardOutput<T>, InferError>)
        requires
            calc.works(),
        ensures
            match r {
                Ok(o) => self@.error(hidden@.len(), base_text@) is None && self@.is_fed(
                    hidden@,
                    *calc,
                    o,
                ),
                Err(e) => self@.error(hidden@.len(), base_text@) == Some(e@),
            },
    {
        let backend = CpuMatmulBackend::new();
        let mut profile = SlowArDecodeProfile::zero();
        let r = self.forward_feed_forward_with_backend(
            &backend,
            hidden,
            base_text,
            &mut profile,
            calc,
        );
        proof {
            lemma_cpu_feeds(self@, backend, hidden@, base_text@, *calc, seen(r));
        }
        r
    }

    /// Makes query, key and value of a token.
    pub fn prepare_decode_token<F: Fn(Op, T, T, T) -> T>(
        &self,
        hidden: &[T],
        position: usize,
        base_text: &str,
        calc: &Calc<T, F>,
    ) -> (r: Result<SlowArLayerPreparedToken<T>, InferError>)
        requires
            calc.works(),
        ensures
            match r {
                Ok(p) => {
                    &&& self@.error(hidden@.len(), base_text@) is None
                    &&& self@.is_prepared(
                        hidden@,
                        position,
                        *calc,
                        p.normalized@,
                        p.query@,
                        p.key@,
                        p.value@,
                    )
                    &&& p.query@.len() == self@.shape.queries()->Ok_0
                    &&& p.key@.len() == self@.shape.keys()->Ok_0
                    &&& p.value@.len() == self@.shape.keys()->Ok_0
                },
                Err(e) => self@.error(hidden@.len(), base_text@) == Some(e@),
            },
    {
        let backend = CpuMatmulBackend::new();
        let mut profile = SlowArDecodeProfile::zero();
        let r = self.prepare_decode_token_with_backend(
            &backend,
            hidden,
            position,
            base_text,
            &mut profile,
            calc,
        );
        proof {
            lemma_cpu_prepares(self@, backend, hidden@, position, base_text@, *calc, seen(r));
        }
        r
    }

    /// Lets a prepared token ask the tokens that it can see.
    pub(crate) fn finish_decode_token<F: Fn(Op, T, T, T) -> T>(
        &self,
        hidden: &[T],
        prepared: &SlowArLayerPreparedToken<T>,
        cache: &SlowArKvCache<T>,
        layer: usize,
        visible: usize,
        base_text: Ghost<Seq<char>>,
        calc: &Calc<T, F>,
    ) -> (r: Result<SlowArLayerForwardOutput<T>, InferError>)
        requires
            calc.works(),
            cache@.full(),
            self@.error(hidden@.len(), base_text@) is None,
            prepared.query@.len() == self@.shape.queries()->Ok_0,
        ensures
            match r {
                Ok(o) => {
                    &&& cache_attention_error(
                        cache@,
                        layer,
                        visible,
                        self@.shape.queries()->Ok_0 as nat,
                        self.shape.head_count,
                    ) is None
                    &&& o.normalized@ == prepared.normalized@
                    &&& o.query@ == prepared.query@
                    &&& o.key@ == prepared.key@
                    &&& o.value@ == prepared.value@
                    &&& self@.is_finished(
                        hidden@,
                        o.query@,
                        cache@,
                        layer,
                        visible,
                        *calc,
                        o.attention@,
                        o.projected@,
                        o.hidden@,
                    )
                },
                Err(e) => cache_attention_error(
                    cache@,
                    layer,
                    visible,
                    self@.shape.queries()->Ok_0 as nat,
                    self.shape.head_count,
                ) == Some(e@),
            },
    {
        let backend = CpuMatmulBackend::new();
        let mut profile = SlowArDecodeProfile::zero();
        let r = self.finish_decode_token_with_backend(
            &backend,
            hidden,
            prepared,
            cache,
            layer,
            visible,
            base_text,
            &mut profile,
            calc,
        );
        proof {
            lemma_cpu_finishes(
                self@,
                backend,
                hidden@,
                base_text@,
                *prepared,
                cache@,
                layer,
                visible,
                *calc,
                seen(r),
            );
        }
        r
    }

    /// Lets attention work on one token: its key and value are stored at the position, and its
    /// query asks all tokens up to it.
    pub fn forward_decode_token<F: Fn(Op, T, T, T) -> T>(
        &self,
        hidden: &[T],
        cache: &mut SlowArKvCache<T>,
        layer: usize,
        position: usize,
        base_text: &str,
        calc: &Calc<T, F>,
    ) -> (r: Result<SlowArLayerForwardOutput<T>, InferError>)
        requires
            calc.works(),
            old(cache)@.full(),
        ensures
            final(cache)@.full(),
            final(cache)@.shaped_as(old(cache)@),
            match r {
                Ok(o) => {
                    &&& self@.decode_error(
                        hidden@.len(),
                        old(cache)@,
                        layer,
                        position,
                        base_text@,
                    ) is None
                    &&& final(cache)@ == written(old(cache)@, layer, position, o.key@, o.value@)
                    &&& self@.is_attended(hidden@, final(cache)@, layer, position, *calc, o)
                },
                Err(e) => {
                    &&& self@.decode_error(
                        hidden@.len(),
                        old(cache)@,
                        layer,
                        position,
                        base_text@,
                    ) == Some(e@)
                    &&& or_else(
                        self@.error(hidden@.len(), base_text@),
                        self@.store_error(old(cache)@, layer, position),
                    ) is Some ==> final(cache)@ == old(cache)@
                    &&& or_else(
                        self@.error(hidden@.len(), base_text@),
                        self@.store_error(old(cache)@, layer, position),
                    ) is None ==> self@.stored_something(
                        hidden@,
                        old(cache)@,
                        layer,
                        position,
                        *calc,
                        final(cache)@,
                    )
                },
            },
    {
        let backend = CpuMatmulBackend::new();
        let mut profile = SlowArDecodeProfile::zero();
        let r = self.forward_decode_token_with_backend(
            &backend,
            hidden,
            cache,
            layer,
            position,
            base_text,
            &mut profile,
            calc,
        );
        proof {
            lemma_cpu_decodes(
                self@,
                backend,
                hidden@,
                old(cache)@,
                layer,
                position,
                base_text@,
                *calc,
                seen(r),
                cache@,
            );
        }
        r
    }
}

} // verus!
