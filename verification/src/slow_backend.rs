//! The work of a layer on one token, by any backend.
use crate::attention::{
    all_turned, apply_rope_normal, cache_attention_error, cache_shape, cache_slot_error, first_rows,
    gqa_error, lemma_first_rows, write_error, written, CacheView, SlowArKvCache,
};
use crate::backend::{heads_norm_error, linear_error, norm_error, CpuMatmulBackend};
use crate::error::{ErrorView, InferError};
use crate::flow::outcome;
use crate::matmul::MatmulBackend;
use crate::numeric::{is_linear, Calc, Op};
use crate::sizes::or_else;
use crate::slow_ar::{
    attention_ops, feed_forward_ops, spent_in, this_moment, SlowArDecodeProfile, SlowArProfileOp,
};
use crate::slow_layer::{
    is_zipped, swiglu_split, zip_with, LayerView, SlowArLayerFeedForwardOutput,
    SlowArLayerForwardOutput, SlowArLayerPreparedToken, SlowArLayerSkeleton,
};
use vstd::prelude::*;
use vstd::slice::{slice_subrange, slice_to_vec};

verus! {

/// A result, with the error as a mathematical value.
pub open spec fn seen<V>(r: Result<V, InferError>) -> Result<V, ErrorView> {
    match r {
        Ok(v) => Ok(v),
        Err(e) => Err(e@),
    }
}

// ---------------------------------------------------------------------
// What the work comes to
// ---------------------------------------------------------------------

impl<T: Copy> LayerView<T> {
    /// What the feed-forward part comes to behind its last product.
    pub open spec fn lowered_to<F: Fn(Op, T, T, T) -> T>(
        self,
        hidden: Seq<T>,
        calc: Calc<T, F>,
        normalized: Seq<T>,
        gate: Seq<T>,
        up: Seq<T>,
        activated: Seq<T>,
        projected: Result<Seq<T>, ErrorView>,
        r: Result<SlowArLayerFeedForwardOutput<T>, ErrorView>,
    ) -> bool {
        match projected {
            Err(e) => r == Err::<SlowArLayerFeedForwardOutput<T>, ErrorView>(e),
            Ok(p) => r matches Ok(o) && o.normalized@ == normalized && o.gate@ == gate && o.up@
                == up && o.activated@ == activated && o.projected@ == p && is_zipped(
                hidden,
                p,
                Op::Plus,
                calc,
                o.hidden@,
            ),
        }
    }

    /// What the feed-forward part comes to behind its second product.
    pub open spec fn raised_by<F: Fn(Op, T, T, T) -> T, B: MatmulBackend<T, F>>(
        self,
        backend: B,
        hidden: Seq<T>,
        calc: Calc<T, F>,
        normalized: Seq<T>,
        gate: Seq<T>,
        up: Seq<T>,
        r: Result<SlowArLayerFeedForwardOutput<T>, ErrorView>,
    ) -> bool {
        exists|activated: Seq<T>, projected: Result<Seq<T>, ErrorView>|
            {
                &&& is_zipped(gate, up, Op::Gate, calc, activated)
                &&& #[trigger] backend.linear_gives(
                    activated,
                    self.feed_forward_w2_weight,
                    self.shape.feed_forward_size,
                    self.shape.hidden_size,
                    calc,
                    projected,
                )
                &&& self.lowered_to(
                    hidden,
                    calc,
                    normalized,
                    gate,
                    up,
                    activated,
                    projected,
                    r,
                )
            }
    }

    /// What the feed-forward part comes to behind its first product.
    pub open spec fn gated_by<F: Fn(Op, T, T, T) -> T, B: MatmulBackend<T, F>>(
        self,
        backend: B,
        hidden: Seq<T>,
        calc: Calc<T, F>,
        normalized: Seq<T>,
        gate: Seq<T>,
        r: Result<SlowArLayerFeedForwardOutput<T>, ErrorView>,
    ) -> bool {
        exists|up: Result<Seq<T>, ErrorView>|
            #[trigger] backend.linear_gives(
                normalized,
                self.feed_forward_w3_weight,
                self.shape.hidden_size,
                self.shape.feed_forward_size,
                calc,
                up,
            ) && match up {
                Err(e) => r == Err::<SlowArLayerFeedForwardOutput<T>, ErrorView>(e),
                Ok(v) => self.raised_by(backend, hidden, calc, normalized, gate, v, r),
            }
    }

    /// What the feed-forward part comes to behind the norm.
    pub open spec fn normed_by<F: Fn(Op, T, T, T) -> T, B: MatmulBackend<T, F>>(
        self,
        backend: B,
        hidden: Seq<T>,
        calc: Calc<T, F>,
        normalized: Seq<T>,
        r: Result<SlowArLayerFeedForwardOutput<T>, ErrorView>,
    ) -> bool {
        exists|gate: Result<Seq<T>, ErrorView>|
            #[trigger] backend.linear_gives(
                normalized,
                self.feed_forward_w1_weight,
                self.shape.hidden_size,
                self.shape.feed_forward_size,
                calc,
                gate,
            ) && match gate {
                Err(e) => r == Err::<SlowArLayerFeedForwardOutput<T>, ErrorView>(e),
                Ok(v) => self.gated_by(backend, hidden, calc, normalized, v, r),
            }
    }

    /// What the feed-forward part comes to: weights and sizes are checked, and the backend is asked
    /// for the norm and the three products, one after the other, until it fails.
    pub open spec fn fed_by<F: Fn(Op, T, T, T) -> T, B: MatmulBackend<T, F>>(
        self,
        backend: B,
        hidden: Seq<T>,
        base_text: Seq<char>,
        calc: Calc<T, F>,
        r: Result<SlowArLayerFeedForwardOutput<T>, ErrorView>,
    ) -> bool {
        match self.error(hidden.len(), base_text) {
            Some(e) => r == Err::<SlowArLayerFeedForwardOutput<T>, ErrorView>(e),
            None => exists|normalized: Result<Seq<T>, ErrorView>|
                #[trigger] backend.norm_gives(
                    hidden,
                    self.ffn_norm_weight,
                    self.shape.rms_norm_eps,
                    calc,
                    normalized,
                ) && match normalized {
                Err(e) => r == Err::<SlowArLayerFeedForwardOutput<T>, ErrorView>(e),
                Ok(v) => self.normed_by(backend, hidden, calc, v, r),
            },
        }
    }

    /// What a token is prepared to behind the norm of its keys.
    pub open spec fn keyed_to<F: Fn(Op, T, T, T) -> T>(
        self,
        position: usize,
        calc: Calc<T, F>,
        normalized: Seq<T>,
        all: Seq<T>,
        query: Seq<T>,
        key: Result<Seq<T>, ErrorView>,
        r: Result<SlowArLayerPreparedToken<T>, ErrorView>,
    ) -> bool {
        let s = self.shape;
        let q = s.queries()->Ok_0 as int;
        let kv = s.keys()->Ok_0 as int;
        match key {
            Err(e) => r == Err::<SlowArLayerPreparedToken<T>, ErrorView>(e),
            Ok(k) => r matches Ok(p) && p.normalized@ == normalized && all_turned(
                query,
                p.query@,
                s.head_dim,
                position,
                s.rope_base,
                calc,
            ) && all_turned(k, p.key@, s.head_dim, position, s.rope_base, calc) && p.value@
                == all.subrange(q + kv, q + 2 * kv),
        }
    }

    /// What a token is prepared to behind the norm of its queries.
    pub open spec fn queried_by<F: Fn(Op, T, T, T) -> T, B: MatmulBackend<T, F>>(
        self,
        backend: B,
        position: usize,
        calc: Calc<T, F>,
        normalized: Seq<T>,
        all: Seq<T>,
        query: Seq<T>,
        r: Result<SlowArLayerPreparedToken<T>, ErrorView>,
    ) -> bool {
        let s = self.shape;
        let q = s.queries()->Ok_0 as int;
        let kv = s.keys()->Ok_0 as int;
        exists|key: Result<Seq<T>, ErrorView>|
            #[trigger] backend.heads_norm_gives(
                all.subrange(q, q + kv),
                self.k_norm_weight,
                s.head_dim,
                s.rms_norm_eps,
                calc,
                key,
            ) && self.keyed_to(position, calc, normalized, all, query, key, r)
    }

    /// What a token is prepared to behind the joined product.
    pub open spec fn joined_by<F: Fn(Op, T, T, T) -> T, B: MatmulBackend<T, F>>(
        self,
        backend: B,
        position: usize,
        calc: Calc<T, F>,
        normalized: Seq<T>,
        all: Seq<T>,
        r: Result<SlowArLayerPreparedToken<T>, ErrorView>,
    ) -> bool {
        let s = self.shape;
        let q = s.queries()->Ok_0 as int;
        exists|query: Result<Seq<T>, ErrorView>|
            #[trigger] backend.heads_norm_gives(
                all.subrange(0, q),
                self.q_norm_weight,
                s.head_dim,
                s.rms_norm_eps,
                calc,
                query,
            ) && match query {
                Err(e) => r == Err::<SlowArLayerPreparedToken<T>, ErrorView>(e),
                Ok(v) => self.queried_by(backend, position, calc, normalized, all, v, r),
            }
    }

    /// What a token is prepared to behind its norm.
    pub open spec fn readied_by<F: Fn(Op, T, T, T) -> T, B: MatmulBackend<T, F>>(
        self,
        backend: B,
        position: usize,
        calc: Calc<T, F>,
        normalized: Seq<T>,
        r: Result<SlowArLayerPreparedToken<T>, ErrorView>,
    ) -> bool {
        exists|all: Result<Seq<T>, ErrorView>|
            #[trigger] backend.linear_gives(
                normalized,
                self.wqkv_weight,
                self.shape.hidden_size,
                self.shape.all()->Ok_0,
                calc,
                all,
            ) && match all {
                Err(e) => r == Err::<SlowArLayerPreparedToken<T>, ErrorView>(e),
                Ok(v) => self.joined_by(backend, position, calc, normalized, v, r),
            }
    }

    /// What a token is prepared to: weights and sizes are checked, and the backend is asked for
    /// the norm, the joined product and the norms of queries and keys, until it fails.
    pub open spec fn prepared_by<F: Fn(Op, T, T, T) -> T, B: MatmulBackend<T, F>>(
        self,
        backend: B,
        hidden: Seq<T>,
        position: usize,
        base_text: Seq<char>,
        calc: Calc<T, F>,
        r: Result<SlowArLayerPreparedToken<T>, ErrorView>,
    ) -> bool {
        match self.error(hidden.len(), base_text) {
            Some(e) => r == Err::<SlowArLayerPreparedToken<T>, ErrorView>(e),
            None => exists|normalized: Result<Seq<T>, ErrorView>|
                #[trigger] backend.norm_gives(
                    hidden,
                    self.attention_norm_weight,
                    self.shape.rms_norm_eps,
                    calc,
                    normalized,
                ) && match normalized {
                Err(e) => r == Err::<SlowArLayerPreparedToken<T>, ErrorView>(e),
                Ok(v) => self.readied_by(backend, position, calc, v, r),
            },
        }
    }

    /// What a prepared token comes to behind the last product.
    pub open spec fn projected_to<F: Fn(Op, T, T, T) -> T>(
        self,
        hidden: Seq<T>,
        p: SlowArLayerPreparedToken<T>,
        calc: Calc<T, F>,
        attention: Seq<T>,
        projected: Result<Seq<T>, ErrorView>,
        r: Result<SlowArLayerForwardOutput<T>, ErrorView>,
    ) -> bool {
        match projected {
            Err(e) => r == Err::<SlowArLayerForwardOutput<T>, ErrorView>(e),
            Ok(v) => r matches Ok(o) && o.normalized@ == p.normalized@ && o.query@ == p.query@
                && o.key@ == p.key@ && o.value@ == p.value@ && o.attention@ == attention
                && o.projected@ == v && is_zipped(hidden, v, Op::Plus, calc, o.hidden@),
        }
    }

    /// What a prepared token comes to behind the answers to its query.
    pub open spec fn answered_by<F: Fn(Op, T, T, T) -> T, B: MatmulBackend<T, F>>(
        self,
        backend: B,
        hidden: Seq<T>,
        p: SlowArLayerPreparedToken<T>,
        calc: Calc<T, F>,
        attention: Seq<T>,
        r: Result<SlowArLayerForwardOutput<T>, ErrorView>,
    ) -> bool {
        exists|projected: Result<Seq<T>, ErrorView>|
            #[trigger] backend.linear_gives(
                attention,
                self.output_weight,
                self.shape.queries()->Ok_0,
                self.shape.hidden_size,
                calc,
                projected,
            ) && self.projected_to(hidden, p, calc, attention, projected, r)
    }

    /// What a prepared token comes to: the cache is checked, and the backend is asked for the
    /// answers to its query and for their product, until it fails.
    pub open spec fn finished_by<F: Fn(Op, T, T, T) -> T, B: MatmulBackend<T, F>>(
        self,
        backend: B,
        hidden: Seq<T>,
        p: SlowArLayerPreparedToken<T>,
        c: CacheView<T>,
        layer: usize,
        visible: usize,
        calc: Calc<T, F>,
        r: Result<SlowArLayerForwardOutput<T>, ErrorView>,
    ) -> bool {
        match cache_slot_error(c, layer, visible) {
            Some(e) => r == Err::<SlowArLayerForwardOutput<T>, ErrorView>(e),
            None => exists|attention: Result<Seq<T>, ErrorView>|
                #[trigger] backend.attention_gives(
                    p.query@,
                    first_rows(c, c.keys, layer, visible as int),
                    first_rows(c, c.values, layer, visible as int),
                    cache_shape(c, self.shape.head_count, visible, self.shape.scale()),
                    calc,
                    attention,
                ) && match attention {
                Err(e) => r == Err::<SlowArLayerForwardOutput<T>, ErrorView>(e),
                Ok(v) => self.answered_by(backend, hidden, p, calc, v, r),
            },
        }
    }

    /// What attention comes to for one token, and what becomes of the cache: the token is prepared,
    /// its key and value are stored, and its query asks all tokens up to it.
    pub open spec fn decoded_by<F: Fn(Op, T, T, T) -> T, B: MatmulBackend<T, F>>(
        self,
        backend: B,
        hidden: Seq<T>,
        before: CacheView<T>,
        layer: usize,
        position: usize,
        base_text: Seq<char>,
        calc: Calc<T, F>,
        r: Result<SlowArLayerForwardOutput<T>, ErrorView>,
        after: CacheView<T>,
    ) -> bool {
        exists|prepared: Result<SlowArLayerPreparedToken<T>, ErrorView>|
            #[trigger] self.prepared_by(backend, hidden, position, base_text, calc, prepared)
                && match prepared {
                Err(e) => r == Err::<SlowArLayerForwardOutput<T>, ErrorView>(e) && after == before,
                Ok(p) => match write_error(before, layer, position, p.key@.len(), p.value@.len()) {
                    Some(e) => r == Err::<SlowArLayerForwardOutput<T>, ErrorView>(e) && after
                        == before,
                    None => after == written(before, layer, position, p.key@, p.value@)
                        && self.finished_by(
                        backend,
                        hidden,
                        p,
                        after,
                        layer,
                        (position + 1) as usize,
                        calc,
                        r,
                    ),
                },
            }
    }
}

// ---------------------------------------------------------------------
// The work
// ---------------------------------------------------------------------

impl<'a, T: Copy> SlowArLayerSkeleton<'a, T> {
    /// Carries out the feed-forward part on one token, by a backend, and adds the time it takes to
    /// a profile.
    pub fn forward_feed_forward_with_backend<F: Fn(Op, T, T, T) -> T, B: MatmulBackend<T, F>>(
        &self,
        backend: &B,
        hidden: &[T],
        base_text: &str,
        profile: &mut SlowArDecodeProfile,
        calc: &Calc<T, F>,
    ) -> (r: Result<SlowArLayerFeedForwardOutput<T>, InferError>)
        requires
            calc.works(),
        ensures
            spent_in(*old(profile), *final(profile), feed_forward_ops()),
            self@.fed_by(*backend, hidden@, base_text@, *calc, seen(r)),
    {
        match self.validate(hidden, base_text) {
            Err(e) => {
                return Err(e);
            },
            Ok(_) => {},
        }
        let start = this_moment();
        let found = backend.rms_norm(
            hidden,
            self.ffn_norm_weight,
            self.shape.rms_norm_eps,
            calc,
        );
        profile.spend(SlowArProfileOp::RmsNorm, &start);
        let ghost n = outcome(found);
        let r = match found {
            Err(e) => Err(e),
            Ok(normalized) => self.feed_normed(backend, hidden, normalized, profile, calc),
        };
        assert(n is Ok ==> self@.normed_by(*backend, hidden@, *calc, n->Ok_0, seen(r)));
        r
    }

    fn feed_normed<F: Fn(Op, T, T, T) -> T, B: MatmulBackend<T, F>>(
        &self,
        backend: &B,
        hidden: &[T],
        normalized: Vec<T>,
        profile: &mut SlowArDecodeProfile,
        calc: &Calc<T, F>,
    ) -> (r: Result<SlowArLayerFeedForwardOutput<T>, InferError>)
        requires
            calc.works(),
            hidden@.len() == self@.shape.hidden_size,
        ensures
            spent_in(*old(profile), *final(profile), feed_forward_ops()),
            self@.normed_by(*backend, hidden@, *calc, normalized@, seen(r)),
    {
        let s = self.shape;
        let start = this_moment();
        let found = backend.linear(
            normalized.as_slice(),
            self.feed_forward_w1_weight,
            s.hidden_size,
            s.feed_forward_size,
            calc,
        );
        profile.spend(SlowArProfileOp::Linear, &start);
        let ghost g = outcome(found);
        assert(backend.linear_gives(
            normalized@,
            self@.feed_forward_w1_weight,
            self@.shape.hidden_size,
            self@.shape.feed_forward_size,
            *calc,
            g,
        ));
        let gate = match found {
            Err(e) => {
                return Err(e);
            },
            Ok(v) => v,
        };
        let start = this_moment();
        let found = backend.linear(
            normalized.as_slice(),
            self.feed_forward_w3_weight,
            s.hidden_size,
            s.feed_forward_size,
            calc,
        );
        profile.spend(SlowArProfileOp::Linear, &start);
        let ghost u = outcome(found);
        assert(backend.linear_gives(
            normalized@,
            self@.feed_forward_w3_weight,
            self@.shape.hidden_size,
            self@.shape.feed_forward_size,
            *calc,
            u,
        ));
        let up = match found {
            Err(e) => {
                assert(self@.gated_by(*backend, hidden@, *calc, normalized@, gate@, Err(e@)));
                return Err(e);
            },
            Ok(v) => v,
        };
        let start = this_moment();
        let found = swiglu_split(gate.as_slice(), up.as_slice(), calc);
        profile.spend(SlowArProfileOp::Swiglu, &start);
        let activated = match found {
            Err(e) => {
                assert(false);
                return Err(e);
            },
            Ok(v) => v,
        };
        let start = this_moment();
        let found = backend.linear(
            activated.as_slice(),
            self.feed_forward_w2_weight,
            s.feed_forward_size,
            s.hidden_size,
            calc,
        );
        profile.spend(SlowArProfileOp::Linear, &start);
        let ghost p = outcome(found);
        let ghost (nv, gv, uv, av) = (normalized@, gate@, up@, activated@);
        assert(backend.linear_gives(
            av,
            self@.feed_forward_w2_weight,
            self@.shape.feed_forward_size,
            self@.shape.hidden_size,
            *calc,
            p,
        ));
        let r = match found {
            Err(e) => Err(e),
            Ok(projected) => {
                let out = zip_with(hidden, projected.as_slice(), Op::Plus, calc);
                Ok(
                    SlowArLayerFeedForwardOutput {
                        normalized,
                        gate,
                        up,
                        activated,
                        projected,
                        hidden: out,
                    },
                )
            },
        };
        proof {
            assert(self@.lowered_to(hidden@, *calc, nv, gv, uv, av, p, seen(r)));
            assert(self@.raised_by(*backend, hidden@, *calc, nv, gv, uv, seen(r)));
            assert(self@.gated_by(*backend, hidden@, *calc, nv, gv, seen(r)));
        }
        r
    }

    /// Makes query, key and value of a token, by a backend, and adds the time it takes to a
    /// profile.
    pub(crate) fn prepare_decode_token_with_backend<
        F: Fn(Op, T, T, T) -> T,
        B: MatmulBackend<T, F>,
    >(
        &self,
        backend: &B,
        hidden: &[T],
        position: usize,
        base_text: &str,
        profile: &mut SlowArDecodeProfile,
        calc: &Calc<T, F>,
    ) -> (r: Result<SlowArLayerPreparedToken<T>, InferError>)
        requires
            calc.works(),
        ensures
            spent_in(*old(profile), *final(profile), attention_ops()),
            self@.prepared_by(*backend, hidden@, position, base_text@, *calc, seen(r)),
            r matches Ok(p) ==> {
                &&& p.query@.len() == self@.shape.queries()->Ok_0
                &&& p.key@.len() == self@.shape.keys()->Ok_0
                &&& p.value@.len() == self@.shape.keys()->Ok_0
            },
    {
        match self.validate(hidden, base_text) {
            Err(e) => {
                return Err(e);
            },
            Ok(_) => {},
        }
        let start = this_moment();
        let found = backend.rms_norm(
            hidden,
            self.attention_norm_weight,
            self.shape.rms_norm_eps,
            calc,
        );
        profile.spend(SlowArProfileOp::RmsNorm, &start);
        let ghost n = outcome(found);
        let r = match found {
            Err(e) => Err(e),
            Ok(normalized) => self.prepare_normed(
                backend,
                normalized,
                position,
                base_text,
                Ghost(hidden@.len()),
                profile,
                calc,
            ),
        };
        assert(n is Ok ==> self@.readied_by(*backend, position, *calc, n->Ok_0, seen(r)));
        r
    }

    fn prepare_normed<F: Fn(Op, T, T, T) -> T, B: MatmulBackend<T, F>>(
        &self,
        backend: &B,
        normalized: Vec<T>,
        position: usize,
        base_text: &str,
        size: Ghost<nat>,
        profile: &mut SlowArDecodeProfile,
        calc: &Calc<T, F>,
    ) -> (r: Result<SlowArLayerPreparedToken<T>, InferError>)
        requires
            calc.works(),
            self@.error(size@, base_text@) is None,
        ensures
            spent_in(*old(profile), *final(profile), attention_ops()),
            self@.readied_by(*backend, position, *calc, normalized@, seen(r)),
            r matches Ok(p) ==> {
                &&& p.query@.len() == self@.shape.queries()->Ok_0
                &&& p.key@.len() == self@.shape.keys()->Ok_0
                &&& p.value@.len() == self@.shape.keys()->Ok_0
            },
    {
        let s = self.shape;
        let q: usize = match s.q_size() {
            Err(e) => {
                assert(false);
                return Err(e);
            },
            Ok(n) => n,
        };
        let kv: usize = match s.kv_size() {
            Err(e) => {
                assert(false);
                return Err(e);
            },
            Ok(n) => n,
        };
        let all: usize = match s.wqkv_out() {
            Err(e) => {
                assert(false);
                return Err(e);
            },
            Ok(n) => n,
        };
        let start = this_moment();
        let found = backend.linear(
            normalized.as_slice(),
            self.wqkv_weight,
            s.hidden_size,
            all,
            calc,
        );
        profile.spend(SlowArProfileOp::Linear, &start);
        let ghost joined = outcome(found);
        assert(backend.linear_gives(
            normalized@,
            self@.wqkv_weight,
            self@.shape.hidden_size,
            self@.shape.all()->Ok_0,
            *calc,
            joined,
        ));
        let qkv = match found {
            Err(e) => {
                return Err(e);
            },
            Ok(v) => v,
        };
        let query_raw = slice_subrange(qkv.as_slice(), 0, q);
        let key_raw = slice_subrange(qkv.as_slice(), q, q + kv);
        let value = slice_to_vec(slice_subrange(qkv.as_slice(), q + kv, q + 2 * kv));
        let start = this_moment();
        let found = backend.rms_norm_heads(
            query_raw,
            self.q_norm_weight,
            s.head_dim,
            s.rms_norm_eps,
            calc,
        );
        profile.spend(SlowArProfileOp::RmsNorm, &start);
        let ghost flat = outcome(found);
        assert(backend.heads_norm_gives(
            qkv@.subrange(0, q as int),
            self@.q_norm_weight,
            self@.shape.head_dim,
            self@.shape.rms_norm_eps,
            *calc,
            flat,
        ));
        let mut query = match found {
            Err(e) => {
                proof {
                    assert(self@.joined_by(
                        *backend,
                        position,
                        *calc,
                        normalized@,
                        qkv@,
                        Err(e@),
                    ));
                }
                return Err(e);
            },
            Ok(v) => v,
        };
        let start = this_moment();
        let found = backend.rms_norm_heads(
            key_raw,
            self.k_norm_weight,
            s.head_dim,
            s.rms_norm_eps,
            calc,
        );
        profile.spend(SlowArProfileOp::RmsNorm, &start);
        let ghost flat_key = outcome(found);
        assert(backend.heads_norm_gives(
            qkv@.subrange(q as int, q + kv),
            self@.k_norm_weight,
            self@.shape.head_dim,
            self@.shape.rms_norm_eps,
            *calc,
            flat_key,
        ));
        let mut key = match found {
            Err(e) => {
                proof {
                    assert(self@.keyed_to(
                        position,
                        *calc,
                        normalized@,
                        qkv@,
                        query@,
                        flat_key,
                        Err(e@),
                    ));
                    assert(self@.queried_by(
                        *backend,
                        position,
                        *calc,
                        normalized@,
                        qkv@,
                        query@,
                        Err(e@),
                    ));
                    assert(self@.joined_by(
                        *backend,
                        position,
                        *calc,
                        normalized@,
                        qkv@,
                        Err(e@),
                    ));
                }
                return Err(e);
            },
            Ok(v) => v,
        };
        proof {
            vstd::arithmetic::div_mod::lemma_mod_multiples_basic(
                s.head_count as int,
                s.head_dim as int,
            );
            vstd::arithmetic::div_mod::lemma_mod_multiples_basic(
                s.head_count_kv as int,
                s.head_dim as int,
            );
        }
        let ghost (q_flat, k_flat) = (query@, key@);
        let start = this_moment();
        let turned = apply_rope_normal(
            &mut query,
            s.head_dim,
            position,
            s.rope_base,
            base_text,
            calc,
        );
        profile.spend(SlowArProfileOp::Rope, &start);
        match turned {
            Err(e) => {
                assert(false);
                return Err(e);
            },
            Ok(_) => {},
        }
        let start = this_moment();
        let turned = apply_rope_normal(
            &mut key,
            s.head_dim,
            position,
            s.rope_base,
            base_text,
            calc,
        );
        profile.spend(SlowArProfileOp::Rope, &start);
        match turned {
            Err(e) => {
                assert(false);
                return Err(e);
            },
            Ok(_) => {},
        }
        let ghost nv = normalized@;
        let r = Ok(SlowArLayerPreparedToken { normalized, query, key, value });
        proof {
            assert(self@.keyed_to(position, *calc, nv, qkv@, q_flat, flat_key, seen(r)));
            assert(self@.queried_by(*backend, position, *calc, nv, qkv@, q_flat, seen(r)));
            assert(self@.joined_by(*backend, position, *calc, nv, qkv@, seen(r)));
        }
        r
    }

    /// Lets a prepared token ask the tokens that it can see, by a backend, and adds the time it
    /// takes to a profile.
    pub(crate) fn finish_decode_token_with_backend<
        F: Fn(Op, T, T, T) -> T,
        B: MatmulBackend<T, F>,
    >(
        &self,
        backend: &B,
        hidden: &[T],
        prepared: &SlowArLayerPreparedToken<T>,
        cache: &SlowArKvCache<T>,
        layer: usize,
        visible: usize,
        base_text: Ghost<Seq<char>>,
        profile: &mut SlowArDecodeProfile,
        calc: &Calc<T, F>,
    ) -> (r: Result<SlowArLayerForwardOutput<T>, InferError>)
        requires
            calc.works(),
            cache@.full(),
            self@.error(hidden@.len(), base_text@) is None,
        ensures
            spent_in(*old(profile), *final(profile), attention_ops()),
            self@.finished_by(
                *backend,
                hidden@,
                *prepared,
                cache@,
                layer,
                visible,
                *calc,
                seen(r),
            ),
            cache_slot_error(cache@, layer, visible) is None ==> {
                &&& first_rows(cache@, cache@.keys, layer, visible as int).len() == visible
                    * cache@.width()
                &&& first_rows(cache@, cache@.values, layer, visible as int).len() == visible
                    * cache@.width()
            },
    {
        let s = self.shape;
        let start = this_moment();
        let found = cache.decode_attention_with_backend(
            backend,
            layer,
            visible,
            prepared.query.as_slice(),
            s.head_count,
            s.attn_scale(),
            calc,
        );
        profile.spend(SlowArProfileOp::GqaAttention, &start);
        let ghost a = outcome(found);
        let attention = match found {
            Err(e) => {
                return Err(e);
            },
            Ok(v) => v,
        };
        let q: usize = match s.q_size() {
            Err(e) => {
                assert(false);
                return Err(e);
            },
            Ok(n) => n,
        };
        let start = this_moment();
        let found = backend.linear(
            attention.as_slice(),
            self.output_weight,
            q,
            s.hidden_size,
            calc,
        );
        profile.spend(SlowArProfileOp::Linear, &start);
        let ghost p = outcome(found);
        let ghost av = attention@;
        assert(backend.linear_gives(
            av,
            self@.output_weight,
            self@.shape.queries()->Ok_0,
            self@.shape.hidden_size,
            *calc,
            p,
        ));
        let r = match found {
            Err(e) => Err(e),
            Ok(projected) => {
                let out = zip_with(hidden, projected.as_slice(), Op::Plus, calc);
                Ok(
                    SlowArLayerForwardOutput {
                        normalized: slice_to_vec(prepared.normalized.as_slice()),
                        query: slice_to_vec(prepared.query.as_slice()),
                        key: slice_to_vec(prepared.key.as_slice()),
                        value: slice_to_vec(prepared.value.as_slice()),
                        attention,
                        projected,
                        hidden: out,
                    },
                )
            },
        };
        proof {
            assert(self@.projected_to(hidden@, *prepared, *calc, av, p, seen(r)));
            assert(self@.answered_by(*backend, hidden@, *prepared, *calc, av, seen(r)));
        }
        r
    }

    /// Lets attention work on one token, by a backend: its key and value are stored at the position,
    /// and its query asks all tokens up to it. The time it takes is added to a profile.
    pub fn forward_decode_token_with_backend<F: Fn(Op, T, T, T) -> T, B: MatmulBackend<T, F>>(
        &self,
        backend: &B,
        hidden: &[T],
        cache: &mut SlowArKvCache<T>,
        layer: usize,
        position: usize,
        base_text: &str,
        profile: &mut SlowArDecodeProfile,
        calc: &Calc<T, F>,
    ) -> (r: Result<SlowArLayerForwardOutput<T>, InferError>)
        requires
            calc.works(),
            old(cache)@.full(),
        ensures
            spent_in(*old(profile), *final(profile), attention_ops()),
            final(cache)@.full(),
            final(cache)@.shaped_as(old(cache)@),
            self@.decoded_by(
                *backend,
                hidden@,
                old(cache)@,
                layer,
                position,
                base_text@,
                *calc,
                seen(r),
                final(cache)@,
            ),
    {
        let found = self.prepare_decode_token_with_backend(
            backend,
            hidden,
            position,
            base_text,
            profile,
            calc,
        );
        let ghost first = seen(found);
        assert(self@.prepared_by(*backend, hidden@, position, base_text@, *calc, first));
        let prepared = match found {
            Err(e) => {
                return Err(e);
            },
            Ok(p) => p,
        };
        let start = this_moment();
        let kept = cache.write_token(
            layer,
            position,
            prepared.key.as_slice(),
            prepared.value.as_slice(),
        );
        profile.spend(SlowArProfileOp::KvWrite, &start);
        match kept {
            Err(e) => {
                return Err(e);
            },
            Ok(_) => {},
        }
        let visible: usize = position + 1;
        self.finish_decode_token_with_backend(
            backend,
            hidden,
            &prepared,
            cache,
            layer,
            visible,
            Ghost(base_text@),
            profile,
            calc,
        )
    }
}

// ---------------------------------------------------------------------
// The work on the processor itself
// ---------------------------------------------------------------------

pub(crate) proof fn lemma_cpu_feeds<T: Copy, F: Fn(Op, T, T, T) -> T>(
    w: LayerView<T>,
    b: CpuMatmulBackend,
    hidden: Seq<T>,
    base_text: Seq<char>,
    calc: Calc<T, F>,
    r: Result<SlowArLayerFeedForwardOutput<T>, ErrorView>,
)
    requires
        w.fed_by(b, hidden, base_text, calc, r),
    ensures
        match r {
            Ok(o) => w.error(hidden.len(), base_text) is None && w.is_fed(hidden, calc, o),
            Err(e) => w.error(hidden.len(), base_text) == Some(e),
        },
{
    if w.error(hidden.len(), base_text) is None {
        let s = w.shape;
        let n = choose|n: Result<Seq<T>, ErrorView>|
            #[trigger] b.norm_gives(hidden, w.ffn_norm_weight, s.rms_norm_eps, calc, n) && match n {
                Err(e) => r == Err::<SlowArLayerFeedForwardOutput<T>, ErrorView>(e),
                Ok(v) => w.normed_by(b, hidden, calc, v, r),
            };
        assert(norm_error(hidden.len(), w.ffn_norm_weight.len()) is None);
        let nv = n->Ok_0;
        let g = choose|g: Result<Seq<T>, ErrorView>|
            #[trigger] b.linear_gives(
                nv,
                w.feed_forward_w1_weight,
                s.hidden_size,
                s.feed_forward_size,
                calc,
                g,
            ) && match g {
                Err(e) => r == Err::<SlowArLayerFeedForwardOutput<T>, ErrorView>(e),
                Ok(v) => w.gated_by(b, hidden, calc, nv, v, r),
            };
        assert(linear_error(
            nv.len(),
            w.feed_forward_w1_weight.len(),
            s.hidden_size,
            s.feed_forward_size,
        ) is None);
        let gv = g->Ok_0;
        let u = choose|u: Result<Seq<T>, ErrorView>|
            #[trigger] b.linear_gives(
                nv,
                w.feed_forward_w3_weight,
                s.hidden_size,
                s.feed_forward_size,
                calc,
                u,
            ) && match u {
                Err(e) => r == Err::<SlowArLayerFeedForwardOutput<T>, ErrorView>(e),
                Ok(v) => w.raised_by(b, hidden, calc, nv, gv, v, r),
            };
        assert(linear_error(
            nv.len(),
            w.feed_forward_w3_weight.len(),
            s.hidden_size,
            s.feed_forward_size,
        ) is None);
        let uv = u->Ok_0;
        let (av, p) = choose|av: Seq<T>, p: Result<Seq<T>, ErrorView>|
            {
                &&& is_zipped(gv, uv, Op::Gate, calc, av)
                &&& #[trigger] b.linear_gives(
                    av,
                    w.feed_forward_w2_weight,
                    s.feed_forward_size,
                    s.hidden_size,
                    calc,
                    p,
                )
                &&& w.lowered_to(hidden, calc, nv, gv, uv, av, p, r)
            };
        assert(linear_error(
            av.len(),
            w.feed_forward_w2_weight.len(),
            s.feed_forward_size,
            s.hidden_size,
        ) is None);
    }
}

pub(crate) proof fn lemma_cpu_prepares<T: Copy, F: Fn(Op, T, T, T) -> T>(
    w: LayerView<T>,
    b: CpuMatmulBackend,
    hidden: Seq<T>,
    position: usize,
    base_text: Seq<char>,
    calc: Calc<T, F>,
    r: Result<SlowArLayerPreparedToken<T>, ErrorView>,
)
    requires
        w.prepared_by(b, hidden, position, base_text, calc, r),
    ensures
        match r {
            Ok(p) => w.error(hidden.len(), base_text) is None && w.is_prepared(
                hidden,
                position,
                calc,
                p.normalized@,
                p.query@,
                p.key@,
                p.value@,
            ),
            Err(e) => w.error(hidden.len(), base_text) == Some(e),
        },
{
    if w.error(hidden.len(), base_text) is None {
        let s = w.shape;
        let q = s.queries()->Ok_0 as int;
        let kv = s.keys()->Ok_0 as int;
        let n = choose|n: Result<Seq<T>, ErrorView>|
            #[trigger] b.norm_gives(
                hidden,
                w.attention_norm_weight,
                s.rms_norm_eps,
                calc,
                n,
            ) && match n {
                Err(e) => r == Err::<SlowArLayerPreparedToken<T>, ErrorView>(e),
                Ok(v) => w.readied_by(b, position, calc, v, r),
            };
        assert(norm_error(hidden.len(), w.attention_norm_weight.len()) is None);
        let nv = n->Ok_0;
        let all = choose|all: Result<Seq<T>, ErrorView>|
            #[trigger] b.linear_gives(
                nv,
                w.wqkv_weight,
                s.hidden_size,
                s.all()->Ok_0,
                calc,
                all,
            ) && match all {
                Err(e) => r == Err::<SlowArLayerPreparedToken<T>, ErrorView>(e),
                Ok(v) => w.joined_by(b, position, calc, nv, v, r),
            };
        assert(linear_error(nv.len(), w.wqkv_weight.len(), s.hidden_size, s.all()->Ok_0) is None);
        let av = all->Ok_0;
        vstd::arithmetic::div_mod::lemma_mod_multiples_basic(
            s.head_count as int,
            s.head_dim as int,
        );
        vstd::arithmetic::div_mod::lemma_mod_multiples_basic(
            s.head_count_kv as int,
            s.head_dim as int,
        );
        let query = choose|query: Result<Seq<T>, ErrorView>|
            #[trigger] b.heads_norm_gives(
                av.subrange(0, q),
                w.q_norm_weight,
                s.head_dim,
                s.rms_norm_eps,
                calc,
                query,
            ) && match query {
                Err(e) => r == Err::<SlowArLayerPreparedToken<T>, ErrorView>(e),
                Ok(v) => w.queried_by(b, position, calc, nv, av, v, r),
            };
        assert(heads_norm_error(q as nat, w.q_norm_weight.len(), s.head_dim) is None);
        let qv = query->Ok_0;
        let key = choose|key: Result<Seq<T>, ErrorView>|
            #[trigger] b.heads_norm_gives(
                av.subrange(q, q + kv),
                w.k_norm_weight,
                s.head_dim,
                s.rms_norm_eps,
                calc,
                key,
            ) && w.keyed_to(position, calc, nv, av, qv, key, r);
        assert(heads_norm_error(kv as nat, w.k_norm_weight.len(), s.head_dim) is None);
        let kvv = key->Ok_0;
        let p = r->Ok_0;
        assert(is_linear(nv, w.wqkv_weight, calc, av));
        assert(all_turned(qv, p.query@, s.head_dim, position, s.rope_base, calc));
        assert(all_turned(kvv, p.key@, s.head_dim, position, s.rope_base, calc));
    }
}

pub(crate) proof fn lemma_cpu_finishes<T: Copy, F: Fn(Op, T, T, T) -> T>(
    w: LayerView<T>,
    b: CpuMatmulBackend,
    hidden: Seq<T>,
    base_text: Seq<char>,
    p: SlowArLayerPreparedToken<T>,
    c: CacheView<T>,
    layer: usize,
    visible: usize,
    calc: Calc<T, F>,
    r: Result<SlowArLayerForwardOutput<T>, ErrorView>,
)
    requires
        w.error(hidden.len(), base_text) is None,
        p.query@.len() == w.shape.queries()->Ok_0,
        cache_slot_error(c, layer, visible) is None ==> {
            &&& first_rows(c, c.keys, layer, visible as int).len() == visible * c.width()
            &&& first_rows(c, c.values, layer, visible as int).len() == visible * c.width()
        },
        w.finished_by(b, hidden, p, c, layer, visible, calc, r),
    ensures
        match r {
            Ok(o) => {
                &&& cache_attention_error(
                    c,
                    layer,
                    visible,
                    w.shape.queries()->Ok_0 as nat,
                    w.shape.head_count,
                ) is None
                &&& o.normalized@ == p.normalized@
                &&& o.query@ == p.query@
                &&& o.key@ == p.key@
                &&& o.value@ == p.value@
                &&& w.is_finished(
                    hidden,
                    o.query@,
                    c,
                    layer,
                    visible,
                    calc,
                    o.attention@,
                    o.projected@,
                    o.hidden@,
                )
            },
            Err(e) => cache_attention_error(
                c,
                layer,
                visible,
                w.shape.queries()->Ok_0 as nat,
                w.shape.head_count,
            ) == Some(e),
        },
{
    if cache_slot_error(c, layer, visible) is None {
        let s = w.shape;
        let keys = first_rows(c, c.keys, layer, visible as int);
        let values = first_rows(c, c.values, layer, visible as int);
        let shape = cache_shape(c, s.head_count, visible, s.scale());
        let a = choose|a: Result<Seq<T>, ErrorView>|
            #[trigger] b.attention_gives(p.query@, keys, values, shape, calc, a) && match a {
                Err(e) => r == Err::<SlowArLayerForwardOutput<T>, ErrorView>(e),
                Ok(v) => w.answered_by(b, hidden, p, calc, v, r),
            };
        if gqa_error(p.query@.len(), keys.len(), values.len(), shape) is None {
            let av = a->Ok_0;
            let q = choose|q: Result<Seq<T>, ErrorView>|
                #[trigger] b.linear_gives(
                    av,
                    w.output_weight,
                    s.queries()->Ok_0,
                    s.hidden_size,
                    calc,
                    q,
                ) && w.projected_to(hidden, p, calc, av, q, r);
            assert(av.len() == p.query@.len());
            assert(linear_error(
                av.len(),
                w.output_weight.len(),
                s.queries()->Ok_0,
                s.hidden_size,
            ) is None);
        }
    }
}

pub(crate) proof fn lemma_cpu_decodes<T: Copy, F: Fn(Op, T, T, T) -> T>(
    w: LayerView<T>,
    b: CpuMatmulBackend,
    hidden: Seq<T>,
    before: CacheView<T>,
    layer: usize,
    position: usize,
    base_text: Seq<char>,
    calc: Calc<T, F>,
    r: Result<SlowArLayerForwardOutput<T>, ErrorView>,
    after: CacheView<T>,
)
    requires
        after.full(),
        w.decoded_by(b, hidden, before, layer, position, base_text, calc, r, after),
    ensures
        match r {
            Ok(o) => {
                &&& w.decode_error(hidden.len(), before, layer, position, base_text) is None
                &&& after == written(before, layer, position, o.key@, o.value@)
                &&& w.is_attended(hidden, after, layer, position, calc, o)
            },
            Err(e) => {
                &&& w.decode_error(hidden.len(), before, layer, position, base_text) == Some(e)
                &&& or_else(
                    w.error(hidden.len(), base_text),
                    w.store_error(before, layer, position),
                ) is Some ==> after == before
                &&& or_else(
                    w.error(hidden.len(), base_text),
                    w.store_error(before, layer, position),
                ) is None ==> w.stored_something(hidden, before, layer, position, calc, after)
            },
        },
{
    let prepared = choose|prepared: Result<SlowArLayerPreparedToken<T>, ErrorView>|
        #[trigger] w.prepared_by(b, hidden, position, base_text, calc, prepared)
            && match prepared {
            Err(e) => r == Err::<SlowArLayerForwardOutput<T>, ErrorView>(e) && after == before,
            Ok(p) => match write_error(before, layer, position, p.key@.len(), p.value@.len()) {
                Some(e) => r == Err::<SlowArLayerForwardOutput<T>, ErrorView>(e) && after
                    == before,
                None => after == written(before, layer, position, p.key@, p.value@)
                    && w.finished_by(
                    b,
                    hidden,
                    p,
                    after,
                    layer,
                    (position + 1) as usize,
                    calc,
                    r,
                ),
            },
        };
    lemma_cpu_prepares(w, b, hidden, position, base_text, calc, prepared);
    if let Ok(p) = prepared {
        let visible = (position + 1) as usize;
        assert(p.key@.len() == w.shape.keys()->Ok_0);
        assert(p.value@.len() == w.shape.keys()->Ok_0);
        assert(p.query@.len() == w.shape.queries()->Ok_0);
        if w.store_error(before, layer, position) is None {
            if cache_slot_error(after, layer, visible) is None {
                lemma_first_rows(after, layer, visible);
            }
            lemma_cpu_finishes(w, b, hidden, base_text, p, after, layer, visible, calc, r);
            assert(cache_slot_error(after, layer, visible) == cache_slot_error(
                before,
                layer,
                visible,
            ));
        }
    }
}

} // verus!
