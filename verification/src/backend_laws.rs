//! What layers come to where a backend computes them.
use crate::attention::{cache_slot_error, written, CacheView};
use crate::backend::CpuMatmulBackend;
use crate::error::ErrorView;
use crate::gguf::FileView;
use crate::layer_laws::{
    is_fed_forward, is_made_ready, slow_asking, slow_feeding, slow_tokens_are_fed,
    slow_tokens_are_made_ready,
};
use crate::matmul::MatmulBackend;
use crate::numeric::{Calc, Op};
use crate::slow_ar::SlowArLayerShape;
use crate::slow_decode::{hidden_at, is_run_by, layer_by, layers_by};
use crate::slow_layer::{
    LayerView, SlowArLayerBlockOutput, SlowArLayerFeedForwardOutput, SlowArLayerForwardOutput,
    SlowArLayerPreparedToken,
};
use crate::slow_run::{is_layer_view, SlowArDecodeLayerRequest};
use vstd::prelude::*;

verus! {

/// Where the backend computes by itself, the feed-forward part of a layer is the layer's own.
pub proof fn backends_feed_as_layers_do<T: Copy, F: Fn(Op, T, T, T) -> T>(
    w: LayerView<T>,
    backend: CpuMatmulBackend,
    hidden: Seq<T>,
    base_text: Seq<char>,
    calc: Calc<T, F>,
    o: SlowArLayerFeedForwardOutput<T>,
)
    requires
        w.fed_by(backend, hidden, base_text, calc, Ok(o)),
    ensures
        w.error(hidden.len(), base_text) is None,
        w.is_fed(hidden, calc, o),
        is_fed_forward(slow_feeding(w), hidden, calc, o.hidden@),
{
    let normalized = choose|normalized: Result<Seq<T>, ErrorView>|
        #[trigger] MatmulBackend::<T, F>::norm_gives(
            &backend,
            hidden,
            w.ffn_norm_weight,
            w.shape.rms_norm_eps,
            calc,
            normalized,
        ) && match normalized {
            Err(e) => Ok::<SlowArLayerFeedForwardOutput<T>, ErrorView>(o) == Err::<
                SlowArLayerFeedForwardOutput<T>,
                ErrorView,
            >(e),
            Ok(v) => w.normed_by(backend, hidden, calc, v, Ok(o)),
        };
    lemma_normed(w, backend, hidden, calc, normalized->Ok_0, o);
    slow_tokens_are_fed(w, hidden, calc, o);
}

proof fn lemma_normed<T: Copy, F: Fn(Op, T, T, T) -> T>(
    w: LayerView<T>,
    backend: CpuMatmulBackend,
    hidden: Seq<T>,
    calc: Calc<T, F>,
    normalized: Seq<T>,
    o: SlowArLayerFeedForwardOutput<T>,
)
    requires
        w.normed_by(backend, hidden, calc, normalized, Ok(o)),
    ensures
        o.normalized@ == normalized,
        o.gate@.len() == w.shape.feed_forward_size,
        crate::numeric::is_linear(normalized, w.feed_forward_w1_weight, calc, o.gate@),
        o.up@.len() == w.shape.feed_forward_size,
        crate::numeric::is_linear(normalized, w.feed_forward_w3_weight, calc, o.up@),
        crate::slow_layer::is_zipped(o.gate@, o.up@, Op::Gate, calc, o.activated@),
        o.projected@.len() == w.shape.hidden_size,
        crate::numeric::is_linear(o.activated@, w.feed_forward_w2_weight, calc, o.projected@),
        crate::slow_layer::is_zipped(hidden, o.projected@, Op::Plus, calc, o.hidden@),
{
    let gate = choose|gate: Result<Seq<T>, ErrorView>|
        #[trigger] MatmulBackend::<T, F>::linear_gives(
            &backend,
            normalized,
            w.feed_forward_w1_weight,
            w.shape.hidden_size,
            w.shape.feed_forward_size,
            calc,
            gate,
        ) && match gate {
            Err(e) => Ok::<SlowArLayerFeedForwardOutput<T>, ErrorView>(o) == Err::<
                SlowArLayerFeedForwardOutput<T>,
                ErrorView,
            >(e),
            Ok(v) => w.gated_by(backend, hidden, calc, normalized, v, Ok(o)),
        };
    let up = choose|up: Result<Seq<T>, ErrorView>|
        #[trigger] MatmulBackend::<T, F>::linear_gives(
            &backend,
            normalized,
            w.feed_forward_w3_weight,
            w.shape.hidden_size,
            w.shape.feed_forward_size,
            calc,
            up,
        ) && match up {
            Err(e) => Ok::<SlowArLayerFeedForwardOutput<T>, ErrorView>(o) == Err::<
                SlowArLayerFeedForwardOutput<T>,
                ErrorView,
            >(e),
            Ok(v) => w.raised_by(backend, hidden, calc, normalized, gate->Ok_0, v, Ok(o)),
        };
    let (activated, projected) = choose|activated: Seq<T>, projected: Result<Seq<T>, ErrorView>|
        {
            &&& crate::slow_layer::is_zipped(gate->Ok_0, up->Ok_0, Op::Gate, calc, activated)
            &&& #[trigger] MatmulBackend::<T, F>::linear_gives(
                &backend,
                activated,
                w.feed_forward_w2_weight,
                w.shape.feed_forward_size,
                w.shape.hidden_size,
                calc,
                projected,
            )
            &&& w.lowered_to(
                hidden,
                calc,
                normalized,
                gate->Ok_0,
                up->Ok_0,
                activated,
                projected,
                Ok(o),
            )
        };
    assert(projected is Ok);
}

/// Where the backend computes by itself, a token is made ready as the layer makes it ready.
pub proof fn backends_make_ready_as_layers_do<T: Copy, F: Fn(Op, T, T, T) -> T>(
    w: LayerView<T>,
    backend: CpuMatmulBackend,
    hidden: Seq<T>,
    position: usize,
    base_text: Seq<char>,
    calc: Calc<T, F>,
    p: SlowArLayerPreparedToken<T>,
)
    requires
        w.prepared_by(backend, hidden, position, base_text, calc, Ok(p)),
    ensures
        w.error(hidden.len(), base_text) is None,
        w.is_prepared(hidden, position, calc, p.normalized@, p.query@, p.key@, p.value@),
        is_made_ready(
            slow_asking(w),
            hidden,
            position as int,
            calc,
            p.query@,
            p.key@,
            p.value@,
        ),
{
    let normalized = choose|normalized: Result<Seq<T>, ErrorView>|
        #[trigger] MatmulBackend::<T, F>::norm_gives(
            &backend,
            hidden,
            w.attention_norm_weight,
            w.shape.rms_norm_eps,
            calc,
            normalized,
        ) && match normalized {
            Err(e) => Ok::<SlowArLayerPreparedToken<T>, ErrorView>(p) == Err::<
                SlowArLayerPreparedToken<T>,
                ErrorView,
            >(e),
            Ok(v) => w.readied_by(backend, position, calc, v, Ok(p)),
        };
    lemma_readied(w, backend, hidden, position, base_text, calc, normalized->Ok_0, p);
    slow_tokens_are_made_ready(
        w,
        base_text,
        hidden,
        position,
        calc,
        p.normalized@,
        p.query@,
        p.key@,
        p.value@,
    );
}

proof fn lemma_readied<T: Copy, F: Fn(Op, T, T, T) -> T>(
    w: LayerView<T>,
    backend: CpuMatmulBackend,
    hidden: Seq<T>,
    position: usize,
    base_text: Seq<char>,
    calc: Calc<T, F>,
    normalized: Seq<T>,
    p: SlowArLayerPreparedToken<T>,
)
    requires
        w.readied_by(backend, position, calc, normalized, Ok(p)),
        crate::backend::is_norm(
            hidden,
            w.attention_norm_weight,
            w.shape.rms_norm_eps,
            calc,
            normalized,
        ),
        w.shape.error(base_text) is None,
    ensures
        w.is_prepared(hidden, position, calc, p.normalized@, p.query@, p.key@, p.value@),
{
    let s = w.shape;
    let q = s.queries()->Ok_0 as int;
    let kv = s.keys()->Ok_0 as int;
    let all = choose|all: Result<Seq<T>, ErrorView>|
        #[trigger] MatmulBackend::<T, F>::linear_gives(
            &backend,
            normalized,
            w.wqkv_weight,
            s.hidden_size,
            s.all()->Ok_0,
            calc,
            all,
        ) && match all {
            Err(e) => Ok::<SlowArLayerPreparedToken<T>, ErrorView>(p) == Err::<
                SlowArLayerPreparedToken<T>,
                ErrorView,
            >(e),
            Ok(v) => w.joined_by(backend, position, calc, normalized, v, Ok(p)),
        };
    let a = all->Ok_0;
    let query = choose|query: Result<Seq<T>, ErrorView>|
        #[trigger] MatmulBackend::<T, F>::heads_norm_gives(
            &backend,
            a.subrange(0, q),
            w.q_norm_weight,
            s.head_dim,
            s.rms_norm_eps,
            calc,
            query,
        ) && match query {
            Err(e) => Ok::<SlowArLayerPreparedToken<T>, ErrorView>(p) == Err::<
                SlowArLayerPreparedToken<T>,
                ErrorView,
            >(e),
            Ok(v) => w.queried_by(backend, position, calc, normalized, a, v, Ok(p)),
        };
    let key = choose|key: Result<Seq<T>, ErrorView>|
        #[trigger] MatmulBackend::<T, F>::heads_norm_gives(
            &backend,
            a.subrange(q, q + kv),
            w.k_norm_weight,
            s.head_dim,
            s.rms_norm_eps,
            calc,
            key,
        ) && w.keyed_to(position, calc, normalized, a, query->Ok_0, key, Ok(p));
    assert(key is Ok);
    assert(a.len() == q + 2 * kv);
    assert(crate::numeric::is_linear(normalized, w.wqkv_weight, calc, a));
    assert(crate::attention::all_turned(
        query->Ok_0,
        p.query@,
        s.head_dim,
        position,
        s.rope_base,
        calc,
    ));
    assert(crate::attention::all_turned(
        key->Ok_0,
        p.key@,
        s.head_dim,
        position,
        s.rope_base,
        calc,
    ));
}

/// Where the backend computes by itself, a token that was made ready asks the cache as the layer lets
/// it.
pub proof fn backends_ask_as_layers_do<T: Copy, F: Fn(Op, T, T, T) -> T>(
    w: LayerView<T>,
    backend: CpuMatmulBackend,
    hidden: Seq<T>,
    p: SlowArLayerPreparedToken<T>,
    c: CacheView<T>,
    layer: usize,
    visible: usize,
    calc: Calc<T, F>,
    o: SlowArLayerForwardOutput<T>,
)
    requires
        w.finished_by(backend, hidden, p, c, layer, visible, calc, Ok(o)),
    ensures
        cache_slot_error(c, layer, visible) is None,
        o.normalized@ == p.normalized@,
        o.query@ == p.query@,
        o.key@ == p.key@,
        o.value@ == p.value@,
        w.is_finished(
            hidden,
            p.query@,
            c,
            layer,
            visible,
            calc,
            o.attention@,
            o.projected@,
            o.hidden@,
        ),
{
    let attention = choose|attention: Result<Seq<T>, ErrorView>|
        #[trigger] MatmulBackend::<T, F>::attention_gives(
            &backend,
            p.query@,
            crate::attention::first_rows(c, c.keys, layer, visible as int),
            crate::attention::first_rows(c, c.values, layer, visible as int),
            crate::attention::cache_shape(c, w.shape.head_count, visible, w.shape.scale()),
            calc,
            attention,
        ) && match attention {
            Err(e) => Ok::<SlowArLayerForwardOutput<T>, ErrorView>(o) == Err::<
                SlowArLayerForwardOutput<T>,
                ErrorView,
            >(e),
            Ok(v) => w.answered_by(backend, hidden, p, calc, v, Ok(o)),
        };
    let projected = choose|projected: Result<Seq<T>, ErrorView>|
        #[trigger] MatmulBackend::<T, F>::linear_gives(
            &backend,
            attention->Ok_0,
            w.output_weight,
            w.shape.queries()->Ok_0,
            w.shape.hidden_size,
            calc,
            projected,
        ) && w.projected_to(hidden, p, calc, attention->Ok_0, projected, Ok(o));
    assert(projected is Ok);
}

/// Where the backend computes by itself, decoding a token stores its key and its value, and asks all
/// tokens up to it.
pub proof fn backends_decode_as_layers_do<T: Copy, F: Fn(Op, T, T, T) -> T>(
    w: LayerView<T>,
    backend: CpuMatmulBackend,
    hidden: Seq<T>,
    before: CacheView<T>,
    layer: usize,
    position: usize,
    base_text: Seq<char>,
    calc: Calc<T, F>,
    o: SlowArLayerForwardOutput<T>,
    after: CacheView<T>,
)
    requires
        w.decoded_by(backend, hidden, before, layer, position, base_text, calc, Ok(o), after),
    ensures
        after == written(before, layer, position, o.key@, o.value@),
        w.is_attended(hidden, after, layer, position, calc, o),
{
    let prepared = choose|prepared: Result<SlowArLayerPreparedToken<T>, ErrorView>|
        #[trigger] w.prepared_by(backend, hidden, position, base_text, calc, prepared)
            && match prepared {
            Err(e) => Ok::<SlowArLayerForwardOutput<T>, ErrorView>(o) == Err::<
                SlowArLayerForwardOutput<T>,
                ErrorView,
            >(e) && after == before,
            Ok(p) => match crate::attention::write_error(
                before,
                layer,
                position,
                p.key@.len(),
                p.value@.len(),
            ) {
                Some(e) => Ok::<SlowArLayerForwardOutput<T>, ErrorView>(o) == Err::<
                    SlowArLayerForwardOutput<T>,
                    ErrorView,
                >(e) && after == before,
                None => after == written(before, layer, position, p.key@, p.value@)
                    && w.finished_by(
                    backend,
                    hidden,
                    p,
                    after,
                    layer,
                    (position + 1) as usize,
                    calc,
                    Ok(o),
                ),
            },
        };
    let p = prepared->Ok_0;
    backends_make_ready_as_layers_do(w, backend, hidden, position, base_text, calc, p);
    backends_ask_as_layers_do(
        w,
        backend,
        hidden,
        p,
        after,
        layer,
        (position + 1) as usize,
        calc,
        o,
    );
}

/// Where the backend computes by itself, a layer decodes a token and feeds what comes of it.
pub proof fn backends_run_layers_as_they_are<T: Copy, F: Fn(Op, T, T, T) -> T>(
    w: LayerView<T>,
    backend: CpuMatmulBackend,
    hidden: Seq<T>,
    before: CacheView<T>,
    layer: usize,
    position: usize,
    base_text: Seq<char>,
    calc: Calc<T, F>,
    out: SlowArLayerBlockOutput<T>,
    after: CacheView<T>,
)
    requires
        w.block_by(backend, hidden, before, layer, position, base_text, calc, Ok(out), after),
    ensures
        after == written(before, layer, position, out.attention.key@, out.attention.value@),
        w.is_attended(hidden, after, layer, position, calc, out.attention),
        w.is_fed(out.attention.hidden@, calc, out.feed_forward),
        out.hidden@ == out.feed_forward.hidden@,
{
    let attention = choose|attention: Result<SlowArLayerForwardOutput<T>, ErrorView>|
        #[trigger] w.decoded_by(
            backend,
            hidden,
            before,
            layer,
            position,
            base_text,
            calc,
            attention,
            after,
        ) && match attention {
            Err(e) => Ok::<SlowArLayerBlockOutput<T>, ErrorView>(out) == Err::<
                SlowArLayerBlockOutput<T>,
                ErrorView,
            >(e),
            Ok(a) => w.fed_to(backend, a, base_text, calc, Ok(out)),
        };
    let a = attention->Ok_0;
    backends_decode_as_layers_do(
        w,
        backend,
        hidden,
        before,
        layer,
        position,
        base_text,
        calc,
        a,
        after,
    );
    let fed = choose|fed: Result<SlowArLayerFeedForwardOutput<T>, ErrorView>|
        #[trigger] w.fed_by(backend, a.hidden@, base_text, calc, fed) && match fed {
            Err(e) => Ok::<SlowArLayerBlockOutput<T>, ErrorView>(out) == Err::<
                SlowArLayerBlockOutput<T>,
                ErrorView,
            >(e),
            Ok(o) => out.attention == a && out.feed_forward == o && out.hidden@ == o.hidden@,
        };
    backends_feed_as_layers_do(w, backend, a.hidden@, base_text, calc, fed->Ok_0);
}

// ---------------------------------------------------------------------
// Runs
// ---------------------------------------------------------------------

/// Whether a layer of a file makes this of a token and of the cache.
#[verifier::opaque]
pub open spec fn layer_of_file_gives<T: Copy, F: Fn(Op, T, T, T) -> T, B: MatmulBackend<T, F>>(
    backend: B,
    f: FileView,
    file: Seq<u8>,
    layer: int,
    shape: SlowArLayerShape,
    position: usize,
    base_text: Seq<char>,
    calc: Calc<T, F>,
    hidden: Seq<T>,
    before: CacheView<T>,
    out: SlowArLayerBlockOutput<T>,
    after: CacheView<T>,
) -> bool {
    exists|w: LayerView<T>|
        #[trigger] is_layer_view(f, file, layer as usize, shape, calc, w) && w.block_by(
            backend,
            hidden,
            before,
            layer as usize,
            position,
            base_text,
            calc,
            Ok(out),
            after,
        )
}

/// Whether layers follow each other, each on what the one before gave and left.
pub open spec fn layers_follow<T: Copy, F: Fn(Op, T, T, T) -> T, B: MatmulBackend<T, F>>(
    backend: B,
    f: FileView,
    file: Seq<u8>,
    first: int,
    shape: SlowArLayerShape,
    position: usize,
    base_text: Seq<char>,
    calc: Calc<T, F>,
    hidden: Seq<T>,
    outs: Seq<SlowArLayerBlockOutput<T>>,
    caches: Seq<CacheView<T>>,
) -> bool {
    &&& caches.len() == outs.len() + 1
    &&& outs.len() > 0 ==> layer_of_file_gives(
        backend,
        f,
        file,
        first,
        shape,
        position,
        base_text,
        calc,
        hidden,
        caches[0],
        outs[0],
        caches[1],
    )
    &&& forall|k: int|
        1 <= k < outs.len() ==> layer_of_file_gives(
            backend,
            f,
            file,
            first + k,
            shape,
            position,
            base_text,
            calc,
            outs[k - 1].hidden@,
            caches[k],
            #[trigger] outs[k],
            caches[k + 1],
        )
}

/// All layers that were asked for work on a token one after another, each on what the one before gave
/// and on the cache that it left; what the last one gives is the result.
pub proof fn layers_work_one_after_another<
    T: Copy,
    F: Fn(Op, T, T, T) -> T,
    B: MatmulBackend<T, F>,
>(
    backend: B,
    f: FileView,
    file: Seq<u8>,
    request: SlowArDecodeLayerRequest,
    shape: SlowArLayerShape,
    base_text: Seq<char>,
    calc: Calc<T, F>,
    hidden: Seq<T>,
    before: CacheView<T>,
    out: SlowArLayerBlockOutput<T>,
    after: CacheView<T>,
)
    requires
        layers_by(
            backend,
            f,
            file,
            request,
            shape,
            base_text,
            calc,
            hidden,
            before,
            Ok(out),
            after,
        ),
        request.layer_start + request.layer_count <= usize::MAX,
    ensures
        exists|outs: Seq<SlowArLayerBlockOutput<T>>, caches: Seq<CacheView<T>>|
            {
                &&& #[trigger] layers_follow(
                    backend,
                    f,
                    file,
                    request.layer_start as int,
                    shape,
                    request.position,
                    base_text,
                    calc,
                    hidden,
                    outs,
                    caches,
                )
                &&& outs.len() == request.layer_count
                &&& outs.len() > 0
                &&& outs.last() == out
                &&& caches[0] == before
                &&& caches.last() == after
            },
{
    let (outs, caches) = choose|
        outs: Seq<SlowArLayerBlockOutput<T>>,
        caches: Seq<CacheView<T>>,
    |
        {
            &&& #[trigger] is_run_by(
                backend,
                f,
                file,
                request.layer_start,
                shape,
                request.position,
                base_text,
                calc,
                hidden,
                outs,
                caches,
            )
            &&& caches[0] == before
            &&& outs.len() == request.layer_count
            &&& outs.len() > 0
            &&& after == caches.last()
            &&& outs.last() == out
        };
    lemma_layers_follow(
        backend,
        f,
        file,
        request,
        shape,
        base_text,
        calc,
        hidden,
        outs,
        caches,
    );
}

proof fn lemma_layers_follow<T: Copy, F: Fn(Op, T, T, T) -> T, B: MatmulBackend<T, F>>(
    backend: B,
    f: FileView,
    file: Seq<u8>,
    request: SlowArDecodeLayerRequest,
    shape: SlowArLayerShape,
    base_text: Seq<char>,
    calc: Calc<T, F>,
    hidden: Seq<T>,
    outs: Seq<SlowArLayerBlockOutput<T>>,
    caches: Seq<CacheView<T>>,
)
    requires
        is_run_by(
            backend,
            f,
            file,
            request.layer_start,
            shape,
            request.position,
            base_text,
            calc,
            hidden,
            outs,
            caches,
        ),
        request.layer_start + outs.len() <= usize::MAX,
    ensures
        layers_follow(
            backend,
            f,
            file,
            request.layer_start as int,
            shape,
            request.position,
            base_text,
            calc,
            hidden,
            outs,
            caches,
        ),
{
    if outs.len() > 0 {
        lemma_layer_of_file(
            backend,
            f,
            file,
            request.layer_start as int,
            shape,
            request.position,
            base_text,
            calc,
            hidden_at(hidden, outs, 0),
            caches[0],
            outs[0],
            caches[1],
        );
    }
    assert forall|k: int| 1 <= k < outs.len() implies layer_of_file_gives(
        backend,
        f,
        file,
        request.layer_start + k,
        shape,
        request.position,
        base_text,
        calc,
        outs[k - 1].hidden@,
        caches[k],
        #[trigger] outs[k],
        caches[k + 1],
    ) by {
        lemma_layer_of_file(
            backend,
            f,
            file,
            request.layer_start + k,
            shape,
            request.position,
            base_text,
            calc,
            hidden_at(hidden, outs, k),
            caches[k],
            outs[k],
            caches[k + 1],
        );
    }
}

proof fn lemma_layer_of_file<T: Copy, F: Fn(Op, T, T, T) -> T, B: MatmulBackend<T, F>>(
    backend: B,
    f: FileView,
    file: Seq<u8>,
    layer: int,
    shape: SlowArLayerShape,
    position: usize,
    base_text: Seq<char>,
    calc: Calc<T, F>,
    hidden: Seq<T>,
    before: CacheView<T>,
    out: SlowArLayerBlockOutput<T>,
    after: CacheView<T>,
)
    requires
        layer_by(
            backend,
            f,
            file,
            layer as usize,
            shape,
            position,
            base_text,
            calc,
            hidden,
            before,
            Ok(out),
            after,
        ),
    ensures
        layer_of_file_gives(
            backend,
            f,
            file,
            layer,
            shape,
            position,
            base_text,
            calc,
            hidden,
            before,
            out,
            after,
        ),
{
    reveal(layer_of_file_gives);
}

} // verus!
