//! One layer of the slow transformer, carried out on several tokens.
use crate::arith::lemma_rows_monotone;
use crate::attention::{
    first_rows, lemma_row_inside, tokens_are_kept_apart, write_error, written, CacheView,
    SlowArKvCache,
};
use crate::error::{ErrorView, InferError};
use crate::numeric::{Calc, Op};
use crate::sizes::{checked_add, or_else, sum_of};
use crate::slow_layer::{
    LayerView, SlowArLayerBlockOutput, SlowArLayerForwardOutput, SlowArLayerPreparedToken,
    SlowArLayerSkeleton,
};
use vstd::prelude::*;
use vstd::slice::slice_to_vec;

verus! {

/// The first error that the places from `i` on have.
pub open spec fn first_of(
    f: spec_fn(int) -> Option<ErrorView>,
    i: int,
    n: int,
) -> Option<ErrorView>
    decreases n - i,
{
    if i >= n {
        None
    } else {
        match f(i) {
            Some(e) => Some(e),
            None => first_of(f, i + 1, n),
        }
    }
}

/// There is no first error exactly where no place has one.
pub proof fn no_first_where_none(f: spec_fn(int) -> Option<ErrorView>, i: int, n: int)
    ensures
        first_of(f, i, n) is None <==> forall|k: int| i <= k < n ==> #[trigger] f(k) is None,
    decreases n - i,
{
    if i < n {
        no_first_where_none(f, i + 1, n);
        if f(i) is None && first_of(f, i + 1, n) is None {
            assert forall|k: int| i <= k < n implies #[trigger] f(k) is None by {
                if k == i {
                } else {
                    assert(f(k) is None);
                }
            }
        }
    }
}

/// A cache after keys and values were stored at the positions from `start` on.
pub open spec fn stored<T>(
    c: CacheView<T>,
    layer: usize,
    start: int,
    kv: Seq<(Seq<T>, Seq<T>)>,
) -> CacheView<T>
    decreases kv.len(),
{
    if kv.len() == 0 {
        c
    } else {
        written(
            stored(c, layer, start, kv.drop_last()),
            layer,
            (start + kv.len() - 1) as usize,
            kv.last().0,
            kv.last().1,
        )
    }
}

/// Whether a cache keeps every token but those of one layer from `start` to before `end`.
pub open spec fn keeps_others<T>(
    before: CacheView<T>,
    after: CacheView<T>,
    layer: usize,
    start: int,
    end: int,
) -> bool {
    forall|l: usize, t: usize|
        before.has(l, t) && !(l == layer && start <= t < end) ==> #[trigger] after.key(l, t)
            == before.key(l, t) && after.value(l, t) == before.value(l, t)
}

/// Lists of values as sequences.
pub open spec fn lists<T>(v: Seq<Vec<T>>) -> Seq<Seq<T>> {
    v.map_values(|x: Vec<T>| x@)
}

/// Keys and values of prepared tokens.
pub open spec fn prepared_kv<T>(p: Seq<SlowArLayerPreparedToken<T>>) -> Seq<(Seq<T>, Seq<T>)> {
    p.map_values(|t: SlowArLayerPreparedToken<T>| (t.key@, t.value@))
}

/// Keys and values of finished tokens.
pub open spec fn output_kv<T>(o: Seq<SlowArLayerForwardOutput<T>>) -> Seq<(Seq<T>, Seq<T>)> {
    o.map_values(|t: SlowArLayerForwardOutput<T>| (t.key@, t.value@))
}

proof fn lemma_written_keeps<T>(
    c: CacheView<T>,
    layer: usize,
    token: usize,
    key: Seq<T>,
    value: Seq<T>,
)
    requires
        c.full(),
        write_error(c, layer, token, key.len(), value.len()) is None,
    ensures
        written(c, layer, token, key, value).full(),
        written(c, layer, token, key, value).shaped_as(c),
        keeps_others(c, written(c, layer, token, key, value), layer, token as int, token + 1),
{
    let after = written(c, layer, token, key, value);
    tokens_are_kept_apart(c, layer, token, key, value, layer, token);
    assert forall|l: usize, t: usize|
        c.has(l, t) && !(l == layer && token <= t < token + 1) implies #[trigger] after.key(l, t)
        == c.key(l, t) && after.value(l, t) == c.value(l, t) by {
        tokens_are_kept_apart(c, layer, token, key, value, l, t);
    }
}

proof fn lemma_keeps_more<T>(
    a: CacheView<T>,
    b: CacheView<T>,
    c: CacheView<T>,
    layer: usize,
    start: int,
    middle: int,
    end: int,
)
    requires
        start <= middle <= end,
        b.shaped_as(a),
        keeps_others(a, b, layer, start, middle),
        keeps_others(b, c, layer, middle, end),
    ensures
        keeps_others(a, c, layer, start, end),
{
    assert forall|l: usize, t: usize|
        a.has(l, t) && !(l == layer && start <= t < end) implies #[trigger] c.key(l, t) == a.key(
        l,
        t,
    ) && c.value(l, t) == a.value(l, t) by {
        assert(b.has(l, t));
        assert(b.key(l, t) == a.key(l, t));
        assert(c.key(l, t) == b.key(l, t));
    }
}

/// The rows before a token stay when the token is written.
proof fn lemma_earlier_rows_stay<T>(
    c: CacheView<T>,
    layer: usize,
    token: usize,
    key: Seq<T>,
    value: Seq<T>,
    count: int,
)
    requires
        c.full(),
        write_error(c, layer, token, key.len(), value.len()) is None,
        0 <= count <= token,
    ensures
        ({
            let after = written(c, layer, token, key, value);
            &&& first_rows(after, after.keys, layer, count) == first_rows(c, c.keys, layer, count)
            &&& first_rows(after, after.values, layer, count) == first_rows(
                c,
                c.values,
                layer,
                count,
            )
        }),
{
    let after = written(c, layer, token, key, value);
    let w = c.width();
    let n = c.row_number(layer, 0);
    let i = c.row_number(layer, token);
    lemma_row_inside(c, layer, token);
    lemma_row_inside(c, layer, 0);
    lemma_rows_monotone(0, n, w);
    lemma_rows_monotone(n, n + count, w);
    lemma_rows_monotone(n + count, i, w);
    assert(first_rows(after, after.keys, layer, count) =~= first_rows(c, c.keys, layer, count));
    assert(first_rows(after, after.values, layer, count) =~= first_rows(
        c,
        c.values,
        layer,
        count,
    ));
}

impl<T: Copy> LayerView<T> {
    /// What is wrong with preparing each token, if anything.
    pub open spec fn prepare_errors(
        self,
        hidden: Seq<Seq<T>>,
        start: usize,
        base_text: Seq<char>,
    ) -> spec_fn(int) -> Option<ErrorView> {
        |i: int|
            match sum_of(start as nat, i as nat, "position"@) {
                Err(e) => Some(e),
                Ok(_) => self.error(hidden[i].len(), base_text),
            }
    }

    /// What is wrong with storing each token, if anything.
    pub open spec fn store_errors(
        self,
        c: CacheView<T>,
        layer: usize,
        start: usize,
    ) -> spec_fn(int) -> Option<ErrorView> {
        |i: int| self.store_error(c, layer, (start + i) as usize)
    }

    /// What is wrong with asking for each token, if anything.
    pub open spec fn ask_errors(
        self,
        c: CacheView<T>,
        layer: usize,
        start: usize,
    ) -> spec_fn(int) -> Option<ErrorView> {
        |i: int| self.ask_error(c, layer, (start + i) as usize)
    }

    /// What is wrong with working on all tokens at once, if anything.
    pub open spec fn prefill_error(
        self,
        hidden: Seq<Seq<T>>,
        c: CacheView<T>,
        layer: usize,
        start: usize,
        base_text: Seq<char>,
    ) -> Option<ErrorView> {
        let n = hidden.len() as int;
        or_else(
            first_of(self.prepare_errors(hidden, start, base_text), 0, n),
            or_else(
                first_of(self.store_errors(c, layer, start), 0, n),
                first_of(self.ask_errors(c, layer, start), 0, n),
            ),
        )
    }

    /// What is wrong with decoding each token, if anything.
    pub open spec fn decode_errors(
        self,
        hidden: Seq<Seq<T>>,
        c: CacheView<T>,
        layer: usize,
        start: usize,
        base_text: Seq<char>,
    ) -> spec_fn(int) -> Option<ErrorView> {
        |i: int|
            match sum_of(start as nat, i as nat, "position"@) {
                Err(e) => Some(e),
                Ok(p) => self.decode_error(hidden[i].len(), c, layer, p, base_text),
            }
    }

    /// Whether the outputs are what attention makes of the tokens from position `start` on, each
    /// asking itself and all before it, and the cache is the one that then holds them.
    pub open spec fn is_attended_sequence<F: Fn(Op, T, T, T) -> T>(
        self,
        hidden: Seq<Seq<T>>,
        before: CacheView<T>,
        layer: usize,
        start: usize,
        calc: Calc<T, F>,
        out: Seq<SlowArLayerForwardOutput<T>>,
        after: CacheView<T>,
    ) -> bool {
        &&& out.len() == hidden.len()
        &&& after == stored(before, layer, start as int, output_kv(out))
        &&& forall|i: int|
            0 <= i < out.len() ==> self.is_attended(
                hidden[i],
                after,
                layer,
                (start + i) as usize,
                calc,
                #[trigger] out[i],
            )
    }

    /// Whether a token is prepared and can be.
    pub open spec fn is_ready<F: Fn(Op, T, T, T) -> T>(
        self,
        hidden: Seq<T>,
        position: int,
        base_text: Seq<char>,
        calc: Calc<T, F>,
        p: SlowArLayerPreparedToken<T>,
    ) -> bool {
        &&& position <= usize::MAX
        &&& self.error(hidden.len(), base_text) is None
        &&& self.is_prepared(
            hidden,
            position as usize,
            calc,
            p.normalized@,
            p.query@,
            p.key@,
            p.value@,
        )
        &&& p.query@.len() == self.shape.queries()->Ok_0
        &&& p.key@.len() == self.shape.keys()->Ok_0
        &&& p.value@.len() == self.shape.keys()->Ok_0
    }
}

impl<'a, T: Copy> SlowArLayerSkeleton<'a, T> {
    fn prepare_all<F: Fn(Op, T, T, T) -> T>(
        &self,
        hidden_tokens: &[Vec<T>],
        start_position: usize,
        base_text: &str,
        calc: &Calc<T, F>,
    ) -> (r: Result<Vec<SlowArLayerPreparedToken<T>>, InferError>)
        requires
            calc.works(),
        ensures
            match r {
                Ok(p) => {
                    &&& p@.len() == hidden_tokens@.len()
                    &&& forall|i: int|
                        0 <= i < p@.len() ==> self@.is_ready(
                            hidden_tokens@[i]@,
                            start_position + i,
                            base_text@,
                            *calc,
                            #[trigger] p@[i],
                        )
                    &&& first_of(
                        self@.prepare_errors(lists(hidden_tokens@), start_position, base_text@),
                        0,
                        hidden_tokens@.len() as int,
                    ) is None
                },
                Err(e) => first_of(
                    self@.prepare_errors(lists(hidden_tokens@), start_position, base_text@),
                    0,
                    hidden_tokens@.len() as int,
                ) == Some(e@),
            },
    {
        let ghost f = self@.prepare_errors(lists(hidden_tokens@), start_position, base_text@);
        let n: usize = hidden_tokens.len();
        let mut prepared: Vec<SlowArLayerPreparedToken<T>> = Vec::new();
        let mut i: usize = 0;
        while i < n
            invariant
                i <= n,
                n == hidden_tokens@.len(),
                calc.works(),
                f == self@.prepare_errors(lists(hidden_tokens@), start_position, base_text@),
                first_of(f, 0, n as int) == first_of(f, i as int, n as int),
                prepared@.len() == i,
                forall|k: int|
                    0 <= k < i ==> self@.is_ready(
                        hidden_tokens@[k]@,
                        start_position + k,
                        base_text@,
                        *calc,
                        #[trigger] prepared@[k],
                    ),
            decreases n - i,
        {
            let ghost here = f(i as int);
            let position: usize = match checked_add(start_position, i, "position") {
                Err(e) => {
                    assert(here == Some(e@));
                    return Err(e);
                },
                Ok(p) => p,
            };
            match self.prepare_decode_token(
                hidden_tokens[i].as_slice(),
                position,
                base_text,
                calc,
            ) {
                Err(e) => {
                    assert(here == Some(e@));
                    return Err(e);
                },
                Ok(p) => {
                    assert(here is None);
                    assert(self@.is_ready(
                        hidden_tokens@[i as int]@,
                        position as int,
                        base_text@,
                        *calc,
                        p,
                    ));
                    prepared.push(p);
                },
            }
            i = i + 1;
        }
        Ok(prepared)
    }

    fn store_all(
        &self,
        prepared: &Vec<SlowArLayerPreparedToken<T>>,
        cache: &mut SlowArKvCache<T>,
        layer: usize,
        start_position: usize,
    ) -> (r: Result<(), InferError>)
        requires
            old(cache)@.full(),
            prepared@.len() > 0 ==> start_position + prepared@.len() - 1 <= usize::MAX,
            forall|i: int|
                0 <= i < prepared@.len() ==> (#[trigger] prepared@[i]).key@.len()
                    == self@.shape.keys()->Ok_0 && prepared@[i].value@.len()
                    == self@.shape.keys()->Ok_0,
        ensures
            final(cache)@.full(),
            final(cache)@.shaped_as(old(cache)@),
            keeps_others(
                old(cache)@,
                final(cache)@,
                layer,
                start_position as int,
                start_position + prepared@.len(),
            ),
            match r {
                Ok(_) => final(cache)@ == stored(
                    old(cache)@,
                    layer,
                    start_position as int,
                    prepared_kv(prepared@),
                ) && first_of(
                    self@.store_errors(old(cache)@, layer, start_position),
                    0,
                    prepared@.len() as int,
                ) is None,
                Err(e) => first_of(
                    self@.store_errors(old(cache)@, layer, start_position),
                    0,
                    prepared@.len() as int,
                ) == Some(e@),
            },
    {
        let ghost before = cache@;
        let ghost f = self@.store_errors(before, layer, start_position);
        let ghost kv = prepared_kv(prepared@);
        let n: usize = prepared.len();
        let mut i: usize = 0;
        assert(kv.take(0) =~= Seq::empty());
        while i < n
            invariant
                i <= n,
                n == prepared@.len(),
                n > 0 ==> start_position + n - 1 <= usize::MAX,
                cache@.full(),
                cache@.shaped_as(before),
                before == old(cache)@,
                f == self@.store_errors(before, layer, start_position),
                kv == prepared_kv(prepared@),
                first_of(f, 0, n as int) == first_of(f, i as int, n as int),
                forall|k: int|
                    0 <= k < n ==> (#[trigger] prepared@[k]).key@.len() == self@.shape.keys()->Ok_0
                        && prepared@[k].value@.len() == self@.shape.keys()->Ok_0,
                cache@ == stored(before, layer, start_position as int, kv.take(i as int)),
                keeps_others(
                    before,
                    cache@,
                    layer,
                    start_position as int,
                    start_position + i,
                ),
            decreases n - i,
        {
            let position: usize = start_position + i;
            let ghost here = f(i as int);
            let ghost now = cache@;
            proof {
                assert(here == self@.store_error(before, layer, position));
                assert(self@.store_error(now, layer, position) == here);
                lemma_keeps_trivially(now, layer, position as int);
                lemma_keeps_more(
                    before,
                    now,
                    now,
                    layer,
                    start_position as int,
                    position as int,
                    start_position + n,
                );
            }
            match cache.write_token(
                layer,
                position,
                prepared[i].key.as_slice(),
                prepared[i].value.as_slice(),
            ) {
                Err(e) => {
                    return Err(e);
                },
                Ok(_) => {},
            }
            proof {
                let next = kv.take(i as int + 1);
                assert(next.drop_last() =~= kv.take(i as int));
                assert(next.last() == (prepared@[i as int].key@, prepared@[i as int].value@));
                lemma_written_keeps(
                    now,
                    layer,
                    position,
                    prepared@[i as int].key@,
                    prepared@[i as int].value@,
                );
                lemma_keeps_more(
                    before,
                    now,
                    cache@,
                    layer,
                    start_position as int,
                    position as int,
                    position + 1,
                );
            }
            i = i + 1;
        }
        assert(kv.take(i as int) =~= kv);
        Ok(())
    }
}

proof fn lemma_keeps_trivially<T>(c: CacheView<T>, layer: usize, start: int)
    ensures
        forall|end: int| #[trigger] keeps_others(c, c, layer, start, end),
{
}


proof fn lemma_attended_stays<T: Copy, F: Fn(Op, T, T, T) -> T>(
    layer_weights: LayerView<T>,
    hidden: Seq<T>,
    c: CacheView<T>,
    layer: usize,
    position: usize,
    calc: Calc<T, F>,
    o: SlowArLayerForwardOutput<T>,
    token: usize,
    key: Seq<T>,
    value: Seq<T>,
)
    requires
        c.full(),
        write_error(c, layer, token, key.len(), value.len()) is None,
        position < token,
        layer_weights.is_attended(hidden, c, layer, position, calc, o),
    ensures
        layer_weights.is_attended(
            hidden,
            written(c, layer, token, key, value),
            layer,
            position,
            calc,
            o,
        ),
{
    lemma_earlier_rows_stay(c, layer, token, key, value, position + 1);
}

impl<'a, T: Copy> SlowArLayerSkeleton<'a, T> {
    /// Lets attention work on tokens one after another.
    pub fn forward_decode_sequence<F: Fn(Op, T, T, T) -> T>(
        &self,
        hidden_tokens: &[Vec<T>],
        cache: &mut SlowArKvCache<T>,
        layer: usize,
        start_position: usize,
        base_text: &str,
        calc: &Calc<T, F>,
    ) -> (r: Result<Vec<SlowArLayerForwardOutput<T>>, InferError>)
        requires
            calc.works(),
            old(cache)@.full(),
        ensures
            final(cache)@.full(),
            final(cache)@.shaped_as(old(cache)@),
            match r {
                Ok(out) => first_of(
                    self@.decode_errors(
                        lists(hidden_tokens@),
                        old(cache)@,
                        layer,
                        start_position,
                        base_text@,
                    ),
                    0,
                    hidden_tokens@.len() as int,
                ) is None && self@.is_attended_sequence(
                    lists(hidden_tokens@),
                    old(cache)@,
                    layer,
                    start_position,
                    *calc,
                    out@,
                    final(cache)@,
                ),
                Err(e) => first_of(
                    self@.decode_errors(
                        lists(hidden_tokens@),
                        old(cache)@,
                        layer,
                        start_position,
                        base_text@,
                    ),
                    0,
                    hidden_tokens@.len() as int,
                ) == Some(e@) && keeps_others(
                    old(cache)@,
                    final(cache)@,
                    layer,
                    start_position as int,
                    start_position + hidden_tokens@.len(),
                ),
            },
    {
        let ghost before = cache@;
        let ghost f = self@.decode_errors(
            lists(hidden_tokens@),
            before,
            layer,
            start_position,
            base_text@,
        );
        let n: usize = hidden_tokens.len();
        let mut out: Vec<SlowArLayerForwardOutput<T>> = Vec::new();
        let mut i: usize = 0;
        assert(output_kv(out@) =~= Seq::empty());
        while i < n
            invariant
                i <= n,
                n == hidden_tokens@.len(),
                calc.works(),
                cache@.full(),
                cache@.shaped_as(before),
                before == old(cache)@,
                f == self@.decode_errors(
                    lists(hidden_tokens@),
                    before,
                    layer,
                    start_position,
                    base_text@,
                ),
                first_of(f, 0, n as int) == first_of(f, i as int, n as int),
                out@.len() == i,
                cache@ == stored(before, layer, start_position as int, output_kv(out@)),
                keeps_others(
                    before,
                    cache@,
                    layer,
                    start_position as int,
                    start_position + i,
                ),
                i > 0 ==> start_position + i - 1 <= usize::MAX,
                forall|k: int|
                    0 <= k < i ==> self@.is_attended(
                        hidden_tokens@[k]@,
                        cache@,
                        layer,
                        (start_position + k) as usize,
                        *calc,
                        #[trigger] out@[k],
                    ),
            decreases n - i,
        {
            let ghost here = f(i as int);
            let ghost now = cache@;
            let ghost done = out@;
            proof {
                lemma_keeps_trivially(now, layer, start_position + i);
                lemma_keeps_more(
                    before,
                    now,
                    now,
                    layer,
                    start_position as int,
                    start_position + i,
                    start_position + n,
                );
            }
            let position: usize = match checked_add(start_position, i, "position") {
                Err(e) => {
                    assert(here == Some(e@));
                    return Err(e);
                },
                Ok(p) => p,
            };
            assert(here == self@.decode_error(
                hidden_tokens@[i as int]@.len(),
                now,
                layer,
                position,
                base_text@,
            ));
            match self.forward_decode_token(
                hidden_tokens[i].as_slice(),
                cache,
                layer,
                position,
                base_text,
                calc,
            ) {
                Err(e) => {
                    proof {
                        if cache@ != now {
                            lemma_stored_keeps(
                                self@,
                                hidden_tokens@[i as int]@,
                                now,
                                layer,
                                position,
                                base_text@,
                                *calc,
                                cache@,
                            );
                            lemma_keeps_more(
                                before,
                                now,
                                cache@,
                                layer,
                                start_position as int,
                                position as int,
                                position + 1,
                            );
                            let after = cache@;
                            lemma_keeps_trivially(after, layer, position + 1);
                            lemma_keeps_more(
                                before,
                                after,
                                after,
                                layer,
                                start_position as int,
                                position + 1,
                                start_position + n,
                            );
                        }
                    }
                    return Err(e);
                },
                Ok(o) => {
                    let ghost key = o.key@;
                    let ghost value = o.value@;
                    out.push(o);
                    proof {
                        lemma_prepared_sizes(
                            self@,
                            hidden_tokens@[i as int]@,
                            position,
                            base_text@,
                            *calc,
                            o.normalized@,
                            o.query@,
                            key,
                            value,
                        );
                        lemma_written_keeps(now, layer, position, key, value);
                        lemma_keeps_more(
                            before,
                            now,
                            cache@,
                            layer,
                            start_position as int,
                            position as int,
                            position + 1,
                        );
                        assert(output_kv(out@).drop_last() =~= output_kv(done));
                        assert(output_kv(out@).last() == (key, value));
                        assert forall|k: int| 0 <= k < i + 1 implies self@.is_attended(
                            hidden_tokens@[k]@,
                            cache@,
                            layer,
                            (start_position + k) as usize,
                            *calc,
                            #[trigger] out@[k],
                        ) by {
                            if k < i {
                                assert(out@[k] == done[k]);
                                lemma_attended_stays(
                                    self@,
                                    hidden_tokens@[k]@,
                                    now,
                                    layer,
                                    (start_position + k) as usize,
                                    *calc,
                                    done[k],
                                    position,
                                    key,
                                    value,
                                );
                            }
                        }
                    }
                },
            }
            i = i + 1;
        }
        Ok(out)
    }

    /// Lets attention work on tokens at once: all keys and values are stored before any token
    /// asks. Each token still asks only itself and those before it.
    pub fn forward_prefill_sequence<F: Fn(Op, T, T, T) -> T>(
        &self,
        hidden_tokens: &[Vec<T>],
        cache: &mut SlowArKvCache<T>,
        layer: usize,
        start_position: usize,
        base_text: &str,
        calc: &Calc<T, F>,
    ) -> (r: Result<Vec<SlowArLayerForwardOutput<T>>, InferError>)
        requires
            calc.works(),
            old(cache)@.full(),
        ensures
            final(cache)@.full(),
            final(cache)@.shaped_as(old(cache)@),
            match r {
                Ok(out) => self@.prefill_error(
                    lists(hidden_tokens@),
                    old(cache)@,
                    layer,
                    start_position,
                    base_text@,
                ) is None && self@.is_attended_sequence(
                    lists(hidden_tokens@),
                    old(cache)@,
                    layer,
                    start_position,
                    *calc,
                    out@,
                    final(cache)@,
                ),
                Err(e) => self@.prefill_error(
                    lists(hidden_tokens@),
                    old(cache)@,
                    layer,
                    start_position,
                    base_text@,
                ) == Some(e@) && keeps_others(
                    old(cache)@,
                    final(cache)@,
                    layer,
                    start_position as int,
                    start_position + hidden_tokens@.len(),
                ),
            },
    {
        let ghost before = cache@;
        let n: usize = hidden_tokens.len();
        let prepared = match self.prepare_all(hidden_tokens, start_position, base_text, calc) {
            Err(e) => {
                return Err(e);
            },
            Ok(p) => p,
        };
        proof {
            if n > 0 {
                let last = prepared@[n - 1];
                assert(self@.is_ready(
                    hidden_tokens@[n - 1]@,
                    start_position + (n - 1),
                    base_text@,
                    *calc,
                    last,
                ));
            }
            assert forall|i: int| 0 <= i < prepared@.len() implies (#[trigger] prepared@[i]).key@.len()
                == self@.shape.keys()->Ok_0 && prepared@[i].value@.len()
                == self@.shape.keys()->Ok_0 by {
                assert(self@.is_ready(
                    hidden_tokens@[i]@,
                    start_position + i,
                    base_text@,
                    *calc,
                    prepared@[i],
                ));
            }
        }
        match self.store_all(&prepared, cache, layer, start_position) {
            Err(e) => {
                return Err(e);
            },
            Ok(_) => {},
        }
        let ghost after = cache@;
        let ghost f = self@.ask_errors(before, layer, start_position);
        let mut out: Vec<SlowArLayerForwardOutput<T>> = Vec::new();
        let mut i: usize = 0;
        proof {
            no_first_where_none(self@.store_errors(before, layer, start_position), 0, n as int);
        }
        while i < n
            invariant
                i <= n,
                n == hidden_tokens@.len(),
                n == prepared@.len(),
                calc.works(),
                cache@ == after,
                after.full(),
                after.shaped_as(before),
                before == old(cache)@,
                start_position + n - 1 <= usize::MAX,
                self@.prefill_error(
                    lists(hidden_tokens@),
                    before,
                    layer,
                    start_position,
                    base_text@,
                ) == first_of(f, 0, n as int),
                keeps_others(
                    before,
                    after,
                    layer,
                    start_position as int,
                    start_position + n,
                ),
                forall|k: int|
                    0 <= k < n ==> #[trigger] self@.store_errors(before, layer, start_position)(k)
                        is None,
                forall|k: int|
                    0 <= k < n ==> self@.is_ready(
                        hidden_tokens@[k]@,
                        start_position + k,
                        base_text@,
                        *calc,
                        #[trigger] prepared@[k],
                    ),
                f == self@.ask_errors(before, layer, start_position),
                first_of(f, 0, n as int) == first_of(f, i as int, n as int),
                out@.len() == i,
                forall|k: int|
                    0 <= k < i ==> (#[trigger] out@[k]).key@ == prepared@[k].key@ && out@[k].value@
                        == prepared@[k].value@,
                forall|k: int|
                    0 <= k < i ==> self@.is_attended(
                        hidden_tokens@[k]@,
                        after,
                        layer,
                        (start_position + k) as usize,
                        *calc,
                        #[trigger] out@[k],
                    ),
            decreases n - i,
        {
            let position: usize = start_position + i;
            let ghost here = f(i as int);
            proof {
                assert(self@.store_errors(before, layer, start_position)(i as int) is None);
                assert(before.has(layer, position));
                assert(self@.is_ready(
                    hidden_tokens@[i as int]@,
                    start_position + i,
                    base_text@,
                    *calc,
                    prepared@[i as int],
                ));
            }
            match self.finish_decode_token(
                hidden_tokens[i].as_slice(),
                &prepared[i],
                cache,
                layer,
                position + 1,
                Ghost(base_text@),
                calc,
            ) {
                Err(e) => {
                    assert(here == Some(e@));
                    return Err(e);
                },
                Ok(o) => {
                    assert(here is None);
                    out.push(o);
                },
            }
            i = i + 1;
        }
        assert(output_kv(out@) =~= prepared_kv(prepared@));
        Ok(out)
    }
}

proof fn lemma_prepared_sizes<T: Copy, F: Fn(Op, T, T, T) -> T>(
    layer_weights: LayerView<T>,
    hidden: Seq<T>,
    position: usize,
    base_text: Seq<char>,
    calc: Calc<T, F>,
    normalized: Seq<T>,
    query: Seq<T>,
    key: Seq<T>,
    value: Seq<T>,
)
    requires
        layer_weights.error(hidden.len(), base_text) is None,
        layer_weights.is_prepared(hidden, position, calc, normalized, query, key, value),
    ensures
        query.len() == layer_weights.shape.queries()->Ok_0,
        key.len() == layer_weights.shape.keys()->Ok_0,
        value.len() == layer_weights.shape.keys()->Ok_0,
{
}

proof fn lemma_stored_keeps<T: Copy, F: Fn(Op, T, T, T) -> T>(
    layer_weights: LayerView<T>,
    hidden: Seq<T>,
    before: CacheView<T>,
    layer: usize,
    position: usize,
    base_text: Seq<char>,
    calc: Calc<T, F>,
    after: CacheView<T>,
)
    requires
        before.full(),
        layer_weights.error(hidden.len(), base_text) is None,
        layer_weights.store_error(before, layer, position) is None,
        layer_weights.stored_something(hidden, before, layer, position, calc, after),
    ensures
        keeps_others(before, after, layer, position as int, position + 1),
{
    let (normalized, query, key, value) = choose|
        normalized: Seq<T>,
        query: Seq<T>,
        key: Seq<T>,
        value: Seq<T>,
    |
        #[trigger] layer_weights.is_prepared(
            hidden,
            position,
            calc,
            normalized,
            query,
            key,
            value,
        ) && after == written(before, layer, position, key, value);
    lemma_prepared_sizes(
        layer_weights,
        hidden,
        position,
        base_text,
        calc,
        normalized,
        query,
        key,
        value,
    );
    lemma_written_keeps(before, layer, position, key, value);
}


// ---------------------------------------------------------------------
// Whole layers
// ---------------------------------------------------------------------

/// The attention parts of a layer's outputs.
pub open spec fn attention_parts<T>(o: Seq<SlowArLayerBlockOutput<T>>) -> Seq<
    SlowArLayerForwardOutput<T>,
> {
    o.map_values(|b: SlowArLayerBlockOutput<T>| b.attention)
}

impl<T: Copy> LayerView<T> {
    /// Whether a layer's output for one token is its attention part, fed forward.
    pub open spec fn is_block<F: Fn(Op, T, T, T) -> T>(
        self,
        calc: Calc<T, F>,
        o: SlowArLayerBlockOutput<T>,
    ) -> bool {
        &&& self.is_fed(o.attention.hidden@, calc, o.feed_forward)
        &&& o.hidden@ == o.feed_forward.hidden@
    }

    /// Whether the outputs are what the whole layer makes of the tokens from position `start` on.
    pub open spec fn is_block_sequence<F: Fn(Op, T, T, T) -> T>(
        self,
        hidden: Seq<Seq<T>>,
        before: CacheView<T>,
        layer: usize,
        start: usize,
        calc: Calc<T, F>,
        out: Seq<SlowArLayerBlockOutput<T>>,
        after: CacheView<T>,
    ) -> bool {
        &&& self.is_attended_sequence(
            hidden,
            before,
            layer,
            start,
            calc,
            attention_parts(out),
            after,
        )
        &&& forall|i: int| 0 <= i < out.len() ==> self.is_block(calc, #[trigger] out[i])
    }
}

impl<'a, T: Copy> SlowArLayerSkeleton<'a, T> {
    /// Lets the whole layer work on tokens at once.
    pub fn forward_block_prefill_sequence<F: Fn(Op, T, T, T) -> T>(
        &self,
        hidden_tokens: &[Vec<T>],
        cache: &mut SlowArKvCache<T>,
        layer: usize,
        start_position: usize,
        base_text: &str,
        calc: &Calc<T, F>,
    ) -> (r: Result<Vec<SlowArLayerBlockOutput<T>>, InferError>)
        requires
            calc.works(),
            old(cache)@.full(),
        ensures
            final(cache)@.full(),
            final(cache)@.shaped_as(old(cache)@),
            match r {
                Ok(out) => self@.prefill_error(
                    lists(hidden_tokens@),
                    old(cache)@,
                    layer,
                    start_position,
                    base_text@,
                ) is None && self@.is_block_sequence(
                    lists(hidden_tokens@),
                    old(cache)@,
                    layer,
                    start_position,
                    *calc,
                    out@,
                    final(cache)@,
                ),
                Err(e) => self@.prefill_error(
                    lists(hidden_tokens@),
                    old(cache)@,
                    layer,
                    start_position,
                    base_text@,
                ) == Some(e@) && keeps_others(
                    old(cache)@,
                    final(cache)@,
                    layer,
                    start_position as int,
                    start_position + hidden_tokens@.len(),
                ),
            },
    {
        let n: usize = hidden_tokens.len();
        let mut attended = match self.forward_prefill_sequence(
            hidden_tokens,
            cache,
            layer,
            start_position,
            base_text,
            calc,
        ) {
            Err(e) => {
                return Err(e);
            },
            Ok(v) => v,
        };
        let ghost all = attended@;
        let ghost f = self@.prepare_errors(lists(hidden_tokens@), start_position, base_text@);
        proof {
            no_first_where_none(f, 0, n as int);
        }
        let mut back: Vec<SlowArLayerBlockOutput<T>> = Vec::new();
        while attended.len() > 0
            invariant
                n == all.len(),
                n == hidden_tokens@.len(),
                attended@.len() + back@.len() == n,
                attended@ == all.take(attended@.len() as int),
                calc.works(),
                f == self@.prepare_errors(lists(hidden_tokens@), start_position, base_text@),
                forall|k: int| 0 <= k < n ==> #[trigger] f(k) is None,
                forall|k: int|
                    0 <= k < n ==> self@.is_attended(
                        hidden_tokens@[k]@,
                        cache@,
                        layer,
                        (start_position + k) as usize,
                        *calc,
                        #[trigger] all[k],
                    ),
                forall|k: int|
                    0 <= k < back@.len() ==> self@.is_block(*calc, #[trigger] back@[k])
                        && back@[k].attention == all[n - 1 - k],
            decreases attended@.len(),
        {
            let ghost m = attended@.len() - 1;
            let attention = attended.pop().unwrap();
            proof {
                assert(f(m) is None);
                assert(attention == all[m]);
                assert(attended@ =~= all.take(m));
            }
            match self.forward_feed_forward(attention.hidden.as_slice(), base_text, calc) {
                Err(e) => {
                    assert(false);
                    return Err(e);
                },
                Ok(feed_forward) => {
                    let hidden = slice_to_vec(feed_forward.hidden.as_slice());
                    let o = SlowArLayerBlockOutput { attention, feed_forward, hidden };
                    assert(self@.is_block(*calc, o));
                    back.push(o);
                },
            }
        }
        let mut out: Vec<SlowArLayerBlockOutput<T>> = Vec::new();
        let ghost turned = back@;
        while back.len() > 0
            invariant
                n == turned.len(),
                n == all.len(),
                back@.len() + out@.len() == n,
                back@ == turned.take(back@.len() as int),
                forall|k: int| 0 <= k < out@.len() ==> #[trigger] out@[k] == turned[n - 1 - k],
            decreases back@.len(),
        {
            let ghost m = back@.len() - 1;
            let o = back.pop().unwrap();
            assert(o == turned[m]);
            assert(back@ =~= turned.take(m));
            out.push(o);
        }
        proof {
            assert forall|i: int| 0 <= i < out@.len() implies self@.is_block(
                *calc,
                #[trigger] out@[i],
            ) by {
                assert(out@[i] == turned[n - 1 - i]);
            }
            assert(attention_parts(out@) =~= all) by {
                assert forall|i: int| 0 <= i < n implies #[trigger] attention_parts(out@)[i]
                    == all[i] by {
                    assert(out@[i] == turned[n - 1 - i]);
                }
            }
        }
        Ok(out)
    }
}

} // verus!
