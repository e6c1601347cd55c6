//! Layers that work on one token, by any backend.
use crate::attention::{CacheView, SlowArKvCache};
use crate::backend::CpuMatmulBackend;
use crate::error::{message, ErrorView, InferError};
use crate::gguf::{tensors_inside, FileView, GgufFile};
use crate::matmul::MatmulBackend;
use crate::numeric::{Calc, Op};
use crate::registry::TransformerTensorRegistry;
use crate::slow_ar::{layer_ops, spent_in, SlowArDecodeProfile, SlowArLayerShape};
use crate::slow_backend::{lemma_cpu_decodes, lemma_cpu_feeds, seen};
use crate::slow_layer::{
    LayerView, SlowArLayerBlockOutput, SlowArLayerFeedForwardOutput, SlowArLayerForwardOutput,
};
use crate::slow_run::{
    block_hiddens, check_range, is_layer_step, is_layer_view, is_run, layer_fails,
    lemma_one_token_block, lemma_one_token_error, range_error, run_fails, run_gives, RunState,
    SlowArDecodeLayerRequest,
};
use crate::slow_weights::{layer_error, SlowArLayerF16Weights};
use vstd::prelude::*;
use vstd::slice::slice_to_vec;

verus! {

impl<T: Copy> LayerView<T> {
    /// What a token comes to behind attention.
    pub open spec fn fed_to<F: Fn(Op, T, T, T) -> T, B: MatmulBackend<T, F>>(
        self,
        backend: B,
        attention: SlowArLayerForwardOutput<T>,
        base_text: Seq<char>,
        calc: Calc<T, F>,
        r: Result<SlowArLayerBlockOutput<T>, ErrorView>,
    ) -> bool {
        exists|fed: Result<SlowArLayerFeedForwardOutput<T>, ErrorView>|
            #[trigger] self.fed_by(backend, attention.hidden@, base_text, calc, fed) && match fed {
                Err(e) => r == Err::<SlowArLayerBlockOutput<T>, ErrorView>(e),
                Ok(o) => r matches Ok(out) && out.attention == attention && out.feed_forward == o
                    && out.hidden@ == o.hidden@,
            }
    }

    /// What a layer makes of a token, and of the cache: attention, then the feed-forward part.
    pub open spec fn block_by<F: Fn(Op, T, T, T) -> T, B: MatmulBackend<T, F>>(
        self,
        backend: B,
        hidden: Seq<T>,
        before: CacheView<T>,
        layer: usize,
        position: usize,
        base_text: Seq<char>,
        calc: Calc<T, F>,
        r: Result<SlowArLayerBlockOutput<T>, ErrorView>,
        after: CacheView<T>,
    ) -> bool {
        exists|attention: Result<SlowArLayerForwardOutput<T>, ErrorView>|
            #[trigger] self.decoded_by(
                backend,
                hidden,
                before,
                layer,
                position,
                base_text,
                calc,
                attention,
                after,
            ) && match attention {
                Err(e) => r == Err::<SlowArLayerBlockOutput<T>, ErrorView>(e),
                Ok(a) => self.fed_to(backend, a, base_text, calc, r),
            }
    }
}

/// What a layer of a file makes of a token, and of the cache.
pub open spec fn layer_by<T: Copy, F: Fn(Op, T, T, T) -> T, B: MatmulBackend<T, F>>(
    backend: B,
    f: FileView,
    file: Seq<u8>,
    layer: usize,
    shape: SlowArLayerShape,
    position: usize,
    base_text: Seq<char>,
    calc: Calc<T, F>,
    hidden: Seq<T>,
    before: CacheView<T>,
    r: Result<SlowArLayerBlockOutput<T>, ErrorView>,
    after: CacheView<T>,
) -> bool {
    match layer_error(f, file, layer, shape) {
        Some(e) => r == Err::<SlowArLayerBlockOutput<T>, ErrorView>(e) && after == before,
        None => exists|w: LayerView<T>|
            #[trigger] is_layer_view(f, file, layer, shape, calc, w) && w.block_by(
                backend,
                hidden,
                before,
                layer,
                position,
                base_text,
                calc,
                r,
                after,
            ),
    }
}

/// The hidden state that the `k`-th layer of a run is given.
pub open spec fn hidden_at<T>(
    hidden: Seq<T>,
    outs: Seq<SlowArLayerBlockOutput<T>>,
    k: int,
) -> Seq<T> {
    if k <= 0 {
        hidden
    } else {
        outs[k - 1].hidden@
    }
}

/// Whether layers of a file, from the first on, give these outputs and leave these caches, one
/// after the other.
pub open spec fn is_run_by<T: Copy, F: Fn(Op, T, T, T) -> T, B: MatmulBackend<T, F>>(
    backend: B,
    f: FileView,
    file: Seq<u8>,
    first: usize,
    shape: SlowArLayerShape,
    position: usize,
    base_text: Seq<char>,
    calc: Calc<T, F>,
    hidden: Seq<T>,
    outs: Seq<SlowArLayerBlockOutput<T>>,
    caches: Seq<CacheView<T>>,
) -> bool {
    &&& caches.len() == outs.len() + 1
    &&& forall|k: int| 0 <= k < caches.len() ==> (#[trigger] caches[k]).full()
    &&& forall|k: int|
        0 <= k < outs.len() ==> layer_by(
            backend,
            f,
            file,
            (first + k) as usize,
            shape,
            position,
            base_text,
            calc,
            hidden_at(hidden, outs, k),
            caches[k],
            Ok(#[trigger] outs[k]),
            caches[k + 1],
        )
}

/// What layers of a file make of a token, and of the cache: the output of the last one, or the
/// error of the first one that fails.
pub open spec fn layers_by<T: Copy, F: Fn(Op, T, T, T) -> T, B: MatmulBackend<T, F>>(
    backend: B,
    f: FileView,
    file: Seq<u8>,
    request: SlowArDecodeLayerRequest,
    shape: SlowArLayerShape,
    base_text: Seq<char>,
    calc: Calc<T, F>,
    hidden: Seq<T>,
    before: CacheView<T>,
    r: Result<SlowArLayerBlockOutput<T>, ErrorView>,
    after: CacheView<T>,
) -> bool {
    exists|outs: Seq<SlowArLayerBlockOutput<T>>, caches: Seq<CacheView<T>>|
        {
            &&& #[trigger] is_run_by(
                backend,
                f,
                file,
                request.layer_start,
                shape,
                request.position,
                base_text,
                calc,
                hidden,
                outs,
                caches,
            )
            &&& caches[0] == before
            &&& outs.len() <= request.layer_count
            &&& if outs.len() < request.layer_count {
                r is Err && layer_by(
                    backend,
                    f,
                    file,
                    (request.layer_start + outs.len()) as usize,
                    shape,
                    request.position,
                    base_text,
                    calc,
                    hidden_at(hidden, outs, outs.len() as int),
                    caches.last(),
                    r,
                    after,
                )
            } else if outs.len() == 0 {
                after == before && r == Err::<SlowArLayerBlockOutput<T>, ErrorView>(
                    message("decode produced no layer outputs"@),
                )
            } else {
                after == caches.last() && r == Ok::<SlowArLayerBlockOutput<T>, ErrorView>(
                    outs.last(),
                )
            }
        }
}

fn decode_layer_with_backend<T: Copy, F: Fn(Op, T, T, T) -> T, B: MatmulBackend<T, F>>(
    backend: &B,
    gguf: &GgufFile,
    file: &[u8],
    registry: &TransformerTensorRegistry,
    layer: usize,
    shape: SlowArLayerShape,
    position: usize,
    hidden: &[T],
    cache: &mut SlowArKvCache<T>,
    base_text: &str,
    profile: &mut SlowArDecodeProfile,
    calc: &Calc<T, F>,
) -> (r: Result<SlowArLayerBlockOutput<T>, InferError>)
    requires
        calc.works(),
        tensors_inside(gguf@),
        registry.complete(),
        shape == SlowArLayerShape::of(registry.graph().slow),
        old(cache)@.full(),
    ensures
        spent_in(*old(profile), *final(profile), layer_ops()),
        final(cache)@.full(),
        final(cache)@.shaped_as(old(cache)@),
        layer_by(
            *backend,
            gguf@,
            file@,
            layer,
            shape,
            position,
            base_text@,
            *calc,
            hidden@,
            old(cache)@,
            seen(r),
            final(cache)@,
        ),
{
    let weights = match SlowArLayerF16Weights::from_gguf_layer(gguf, file, registry, layer) {
        Err(e) => {
            return Err(e);
        },
        Ok(w) => w,
    };
    let values = weights.values(calc);
    let skeleton = values.skeleton(shape);
    let ghost w = skeleton@;
    assert(is_layer_view(gguf@, file@, layer, shape, *calc, w));
    let found = skeleton.forward_decode_token_with_backend(
        backend,
        hidden,
        cache,
        layer,
        position,
        base_text,
        profile,
        calc,
    );
    let ghost a = seen(found);
    assert(w.decoded_by(
        *backend,
        hidden@,
        old(cache)@,
        layer,
        position,
        base_text@,
        *calc,
        a,
        cache@,
    ));
    let attention = match found {
        Err(e) => {
            assert(w.block_by(
                *backend,
                hidden@,
                old(cache)@,
                layer,
                position,
                base_text@,
                *calc,
                Err(e@),
                cache@,
            ));
            return Err(e);
        },
        Ok(o) => o,
    };
    let fed = skeleton.forward_feed_forward_with_backend(
        backend,
        attention.hidden.as_slice(),
        base_text,
        profile,
        calc,
    );
    let ghost f = seen(fed);
    let ghost kept = attention;
    assert(w.fed_by(*backend, kept.hidden@, base_text@, *calc, f));
    let r = match fed {
        Err(e) => Err(e),
        Ok(feed_forward) => {
            let next = slice_to_vec(feed_forward.hidden.as_slice());
            Ok(SlowArLayerBlockOutput { attention, feed_forward, hidden: next })
        },
    };
    proof {
        assert(w.fed_to(*backend, kept, base_text@, *calc, seen(r)));
        assert(w.block_by(
            *backend,
            hidden@,
            old(cache)@,
            layer,
            position,
            base_text@,
            *calc,
            seen(r),
            cache@,
        ));
    }
    r
}

/// Lets layers of a model file work on one token, one layer after another, by a backend, and adds
/// the time it takes to a profile.
pub fn forward_slow_ar_block_decode_layers_with_backend<
    T: Copy,
    F: Fn(Op, T, T, T) -> T,
    B: MatmulBackend<T, F>,
>(
    backend: &B,
    gguf: &GgufFile,
    file: &[u8],
    registry: &TransformerTensorRegistry,
    request: SlowArDecodeLayerRequest,
    hidden: &[T],
    cache: &mut SlowArKvCache<T>,
    base_text: &str,
    profile: &mut SlowArDecodeProfile,
    calc: &Calc<T, F>,
) -> (r: Result<SlowArLayerBlockOutput<T>, InferError>)
    requires
        calc.works(),
        tensors_inside(gguf@),
        registry.complete(),
        old(cache)@.full(),
    ensures
        spent_in(*old(profile), *final(profile), layer_ops()),
        final(cache)@.full(),
        final(cache)@.shaped_as(old(cache)@),
        match range_error(request.layer_start, request.layer_count, 36) {
            Some(e) => r is Err && r->Err_0@ == e && final(cache)@ == old(cache)@,
            None => layers_by(
                *backend,
                gguf@,
                file@,
                request,
                SlowArLayerShape::of(registry.graph().slow),
                base_text@,
                *calc,
                hidden@,
                old(cache)@,
                seen(r),
                final(cache)@,
            ),
        },
{
    match check_range(request.layer_start, request.layer_count, registry.slow_layer_count()) {
        Err(e) => {
            return Err(e);
        },
        Ok(_) => {},
    }
    let shape = match SlowArLayerShape::from_ar_graph_spec(&registry.graph_spec().slow) {
        Err(e) => {
            assert(false);
            return Err(e);
        },
        Ok(s) => s,
    };
    let mut current = slice_to_vec(hidden);
    let mut last: Option<SlowArLayerBlockOutput<T>> = None;
    let ghost mut outs: Seq<SlowArLayerBlockOutput<T>> = Seq::empty();
    let ghost mut caches: Seq<CacheView<T>> = seq![cache@];
    let mut k: usize = 0;
    while k < request.layer_count
        invariant
            k <= request.layer_count,
            request.layer_start + request.layer_count <= 36,
            range_error(request.layer_start, request.layer_count, 36) is None,
            calc.works(),
            tensors_inside(gguf@),
            registry.complete(),
            shape == SlowArLayerShape::of(registry.graph().slow),
            cache@.full(),
            cache@.shaped_as(old(cache)@),
            spent_in(*old(profile), *profile, layer_ops()),
            is_run_by(
                *backend,
                gguf@,
                file@,
                request.layer_start,
                shape,
                request.position,
                base_text@,
                *calc,
                hidden@,
                outs,
                caches,
            ),
            outs.len() == k,
            caches[0] == old(cache)@,
            caches.last() == cache@,
            current@ == hidden_at(hidden@, outs, k as int),
            k > 0 ==> last is Some && outs.last() == last->0,
        decreases request.layer_count - k,
    {
        let layer: usize = request.layer_start + k;
        let found = decode_layer_with_backend(
            backend,
            gguf,
            file,
            registry,
            layer,
            shape,
            request.position,
            current.as_slice(),
            cache,
            base_text,
            profile,
            calc,
        );
        let out = match found {
            Err(e) => {
                return Err(e);
            },
            Ok(o) => o,
        };
        current = slice_to_vec(out.hidden.as_slice());
        proof {
            let more = outs.push(out);
            let longer = caches.push(cache@);
            assert forall|j: int| 0 <= j < more.len() implies layer_by(
                *backend,
                gguf@,
                file@,
                (request.layer_start + j) as usize,
                shape,
                request.position,
                base_text@,
                *calc,
                hidden_at(hidden@, more, j),
                longer[j],
                Ok(#[trigger] more[j]),
                longer[j + 1],
            ) by {
                assert(hidden_at(hidden@, more, j) == hidden_at(hidden@, outs, j));
                assert(longer[j] == caches[j]);
                if j < outs.len() {
                    assert(more[j] == outs[j]);
                    assert(longer[j + 1] == caches[j + 1]);
                }
            }
            outs = more;
            caches = longer;
        }
        last = Some(out);
        k = k + 1;
    }
    assert(is_run_by(
        *backend,
        gguf@,
        file@,
        request.layer_start,
        shape,
        request.position,
        base_text@,
        *calc,
        hidden@,
        outs,
        caches,
    ));
    match last {
        Some(out) => Ok(out),
        None => Err(InferError::text("decode produced no layer outputs")),
    }
}

// ---------------------------------------------------------------------
// Layers on the processor itself
// ---------------------------------------------------------------------

proof fn lemma_cpu_layer<T: Copy, F: Fn(Op, T, T, T) -> T>(
    b: CpuMatmulBackend,
    f: FileView,
    file: Seq<u8>,
    layer: usize,
    shape: SlowArLayerShape,
    position: usize,
    base_text: Seq<char>,
    calc: Calc<T, F>,
    hidden: Seq<T>,
    before: CacheView<T>,
    r: Result<SlowArLayerBlockOutput<T>, ErrorView>,
    after: CacheView<T>,
)
    requires
        after.full(),
        layer_by(b, f, file, layer, shape, position, base_text, calc, hidden, before, r, after),
    ensures
        ({
            let now = RunState { hidden: seq![hidden], cache: before };
            match r {
                Ok(out) => is_layer_step(
                    f,
                    file,
                    layer,
                    shape,
                    position,
                    calc,
                    now,
                    seq![out],
                    (RunState { hidden: seq![out.hidden@], cache: after }),
                ),
                Err(e) => layer_fails(f, file, layer, shape, position, base_text, calc, now, e),
            }
        }),
{
    if layer_error(f, file, layer, shape) is None {
        let w = choose|w: LayerView<T>|
            #[trigger] is_layer_view(f, file, layer, shape, calc, w) && w.block_by(
                b,
                hidden,
                before,
                layer,
                position,
                base_text,
                calc,
                r,
                after,
            );
        let a = choose|a: Result<SlowArLayerForwardOutput<T>, ErrorView>|
            #[trigger] w.decoded_by(
                b,
                hidden,
                before,
                layer,
                position,
                base_text,
                calc,
                a,
                after,
            ) && match a {
                Err(e) => r == Err::<SlowArLayerBlockOutput<T>, ErrorView>(e),
                Ok(o) => w.fed_to(b, o, base_text, calc, r),
            };
        lemma_cpu_decodes(w, b, hidden, before, layer, position, base_text, calc, a, after);
        lemma_one_token_error(w, hidden, before, layer, position, base_text);
        if let Ok(o) = a {
            let fed = choose|fed: Result<SlowArLayerFeedForwardOutput<T>, ErrorView>|
                #[trigger] w.fed_by(b, o.hidden@, base_text, calc, fed) && match fed {
                    Err(e) => r == Err::<SlowArLayerBlockOutput<T>, ErrorView>(e),
                    Ok(v) => r matches Ok(out) && out.attention == o && out.feed_forward == v
                        && out.hidden@ == v.hidden@,
                };
            lemma_cpu_feeds(w, b, o.hidden@, base_text, calc, fed);
            assert(o.hidden@.len() == hidden.len());
            let out = r->Ok_0;
            assert(w.is_block(calc, out));
            lemma_one_token_block(w, hidden, before, layer, position, calc, out, after);
            assert(block_hiddens(seq![out]) =~= seq![out.hidden@]);
        }
    }
}

pub(crate) proof fn lemma_cpu_layers<T: Copy, F: Fn(Op, T, T, T) -> T>(
    b: CpuMatmulBackend,
    f: FileView,
    file: Seq<u8>,
    request: SlowArDecodeLayerRequest,
    shape: SlowArLayerShape,
    base_text: Seq<char>,
    calc: Calc<T, F>,
    hidden: Seq<T>,
    before: CacheView<T>,
    r: Result<SlowArLayerBlockOutput<T>, ErrorView>,
    after: CacheView<T>,
)
    requires
        after.full(),
        range_error(request.layer_start, request.layer_count, 36) is None,
        layers_by(b, f, file, request, shape, base_text, calc, hidden, before, r, after),
    ensures
        match r {
            Ok(out) => run_gives(
                f,
                file,
                request.layer_start,
                request.layer_count,
                shape,
                request.position,
                calc,
                seq![hidden],
                before,
                seq![out],
                after,
            ),
            Err(e) => run_fails(
                f,
                file,
                request.layer_start,
                request.layer_count,
                shape,
                request.position,
                base_text,
                calc,
                seq![hidden],
                before,
                e,
            ),
        },
{
    let first = request.layer_start;
    let position = request.position;
    let (outs, caches) = choose|
        outs: Seq<SlowArLayerBlockOutput<T>>,
        caches: Seq<CacheView<T>>,
    |
        {
            &&& #[trigger] is_run_by(
                b,
                f,
                file,
                first,
                shape,
                position,
                base_text,
                calc,
                hidden,
                outs,
                caches,
            )
            &&& caches[0] == before
            &&& outs.len() <= request.layer_count
            &&& if outs.len() < request.layer_count {
                r is Err && layer_by(
                    b,
                    f,
                    file,
                    (first + outs.len()) as usize,
                    shape,
                    position,
                    base_text,
                    calc,
                    hidden_at(hidden, outs, outs.len() as int),
                    caches.last(),
                    r,
                    after,
                )
            } else if outs.len() == 0 {
                after == before && r == Err::<SlowArLayerBlockOutput<T>, ErrorView>(
                    message("decode produced no layer outputs"@),
                )
            } else {
                after == caches.last() && r == Ok::<SlowArLayerBlockOutput<T>, ErrorView>(
                    outs.last(),
                )
            }
        };
    let n = outs.len();
    let states = Seq::new(
        n + 1,
        |k: int| RunState { hidden: seq![hidden_at(hidden, outs, k)], cache: caches[k] },
    );
    let lists = Seq::new(n, |k: int| seq![outs[k]]);
    assert(is_run(f, file, first, shape, position, calc, states, lists)) by {
        assert forall|k: int| 0 <= k < lists.len() implies is_layer_step(
            f,
            file,
            (first + k) as usize,
            shape,
            position,
            calc,
            states[k],
            #[trigger] lists[k],
            states[k + 1],
        ) by {
            assert(caches[k + 1].full());
            assert(Ok::<SlowArLayerBlockOutput<T>, ErrorView>(outs[k]) is Ok);
            lemma_cpu_layer(
                b,
                f,
                file,
                (first + k) as usize,
                shape,
                position,
                base_text,
                calc,
                hidden_at(hidden, outs, k),
                caches[k],
                Ok(outs[k]),
                caches[k + 1],
            );
            assert(hidden_at(hidden, outs, k + 1) == outs[k].hidden@);
        }
    }
    assert(states[0] == (RunState { hidden: seq![hidden], cache: before }));
    if n < request.layer_count {
        lemma_cpu_layer(
            b,
            f,
            file,
            (first + n) as usize,
            shape,
            position,
            base_text,
            calc,
            hidden_at(hidden, outs, n as int),
            caches.last(),
            r,
            after,
        );
        assert(states.last() == (RunState {
            hidden: seq![hidden_at(hidden, outs, n as int)],
            cache: caches.last(),
        }));
    } else {
        assert(lists.last() == seq![outs.last()]);
        assert(states.last().cache == caches.last());
    }
}

} // verus!
