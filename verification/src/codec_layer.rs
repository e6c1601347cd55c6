//! One layer of the codec's transformers: each frame asks itself and those not too far before it.
use crate::attention::{
    all_turned, apply_rope_normal, are_answers, gqa_decode_attention, AttentionScale,
    GqaAttentionShape,
};
use crate::backend::{is_norm, linear_error, norm_error, rms_norm_f32, CpuMatmulBackend};
use crate::codec_weights::CodecTransformerLayerValues;
use crate::conv::{agree_error, scale_channels};
use crate::error::{message, mismatch, size_mismatch, ErrorView, InferError};
use crate::fast_ar::{flat, keys_of, lemma_flat_size, values_of, PreparedToken};
use crate::numeric::{is_linear, Calc, Op};
use crate::sizes::or_else;
use crate::slow_layer::{is_zipped, zip_with};
use crate::slow_sequence::{first_of, lists};
use crate::text::dec;
use vstd::prelude::*;
use vstd::slice::{slice_subrange, slice_to_vec};
use vstd::string::*;

verus! {

/// What is wrong with the width of each frame, if anything.
pub open spec fn width_errors<T>(tokens: Seq<Seq<T>>) -> spec_fn(int) -> Option<ErrorView> {
    |i: int|
        if tokens[i].len() != 1024 {
            Some(mismatch("codec post_module token length"@, 1024, tokens[i].len()))
        } else {
            None
        }
}

/// The first frame that frame `i` can see through a window.
pub open spec fn first_seen(i: int, window: int) -> int {
    if i + 1 <= window {
        0
    } else {
        i + 1 - window
    }
}

/// The attention shape for a number of frames.
pub open spec fn codec_shape(visible: usize) -> GqaAttentionShape {
    GqaAttentionShape {
        head_count: 16,
        head_count_kv: 16,
        head_dim: 64,
        token_count: visible,
        attn_scale: AttentionScale::OfHead(64),
    }
}

impl<T: Copy> CodecTransformerLayerValues<T> {
    /// What is wrong with the weights, if anything.
    pub open spec fn weights_error(&self, window: usize) -> Option<ErrorView> {
        or_else(
            norm_error(1024, self.attention_norm@.len()),
            or_else(
                linear_error(1024, self.attention_wqkv@.len(), 1024, 3072),
                or_else(
                    if window == 0 {
                        Some(message("invalid attention dims: head_dim=64, token_count=0"@))
                    } else {
                        None
                    },
                    or_else(
                        linear_error(1024, self.attention_output@.len(), 1024, 1024),
                        or_else(
                            agree_error(
                                "scale"@,
                                "values="@,
                                1024,
                                " scale="@,
                                self.attention_layer_scale@.len(),
                            ),
                            self.feed_error(),
                        ),
                    ),
                ),
            ),
        )
    }

    /// What is wrong with the weights of the feed-forward part, if anything.
    pub open spec fn feed_error(&self) -> Option<ErrorView> {
        or_else(
            norm_error(1024, self.ffn_norm@.len()),
            or_else(
                linear_error(1024, self.feed_forward_w1@.len(), 1024, 3072),
                or_else(
                    linear_error(1024, self.feed_forward_w3@.len(), 1024, 3072),
                    or_else(
                        linear_error(3072, self.feed_forward_w2@.len(), 3072, 1024),
                        agree_error(
                            "scale"@,
                            "values="@,
                            1024,
                            " scale="@,
                            self.ffn_layer_scale@.len(),
                        ),
                    ),
                ),
            ),
        )
    }

    /// What is wrong with frames and weights, if anything.
    pub open spec fn layer_error(&self, tokens: Seq<Seq<T>>, window: usize) -> Option<ErrorView> {
        if tokens.len() == 0 {
            Some(message("codec transformer requires at least one frame"@))
        } else {
            or_else(
                first_of(width_errors(tokens), 0, tokens.len() as int),
                self.weights_error(window),
            )
        }
    }

    /// Whether query, key and value come from a frame.
    pub open spec fn is_prepared<F: Fn(Op, T, T, T) -> T>(
        &self,
        token: Seq<T>,
        position: usize,
        calc: Calc<T, F>,
        p: PreparedToken<T>,
    ) -> bool {
        exists|normalized: Seq<T>, all: Seq<T>|
            {
                &&& is_norm(token, self.attention_norm@, 0x3727_c5ac, calc, normalized)
                &&& all.len() == 3072
                &&& #[trigger] is_linear(normalized, self.attention_wqkv@, calc, all)
                &&& all_turned(all.subrange(0, 1024), p.query@, 64, position, 0x461c_4000, calc)
                &&& all_turned(all.subrange(1024, 2048), p.key@, 64, position, 0x461c_4000, calc)
                &&& p.value@ == all.subrange(2048, 3072)
            }
    }

    /// Whether all frames are prepared.
    pub open spec fn are_prepared<F: Fn(Op, T, T, T) -> T>(
        &self,
        tokens: Seq<Seq<T>>,
        calc: Calc<T, F>,
        p: Seq<PreparedToken<T>>,
    ) -> bool {
        &&& p.len() == tokens.len()
        &&& forall|i: int|
            0 <= i < p.len() ==> self.is_prepared(tokens[i], i as usize, calc, #[trigger] p[i])
    }

    /// Whether a frame, asking the frames that it can see, becomes this one.
    pub open spec fn is_asked<F: Fn(Op, T, T, T) -> T>(
        &self,
        token: Seq<T>,
        query: Seq<T>,
        keys: Seq<T>,
        values: Seq<T>,
        visible: usize,
        calc: Calc<T, F>,
        out: Seq<T>,
    ) -> bool {
        exists|attention: Seq<T>, projected: Seq<T>, scaled: Seq<T>|
            {
                &&& are_answers(query, keys, values, codec_shape(visible), calc, attention, 16)
                &&& projected.len() == 1024
                &&& #[trigger] is_linear(attention, self.attention_output@, calc, projected)
                &&& #[trigger] is_zipped(
                    projected,
                    self.attention_layer_scale@,
                    Op::Times,
                    calc,
                    scaled,
                )
                &&& is_zipped(token, scaled, Op::Plus, calc, out)
            }
    }

    /// Whether all frames have asked the frames that they can see.
    pub open spec fn are_asked<F: Fn(Op, T, T, T) -> T>(
        &self,
        tokens: Seq<Seq<T>>,
        window: int,
        p: Seq<PreparedToken<T>>,
        calc: Calc<T, F>,
        out: Seq<Seq<T>>,
    ) -> bool {
        &&& out.len() == tokens.len()
        &&& forall|i: int|
            0 <= i < out.len() ==> self.is_asked(
                tokens[i],
                p[i].query@,
                flat(keys_of(p).subrange(first_seen(i, window), i + 1)),
                flat(values_of(p).subrange(first_seen(i, window), i + 1)),
                (i + 1 - first_seen(i, window)) as usize,
                calc,
                #[trigger] out[i],
            )
    }

    /// Whether the feed-forward part leads from one frame to the other.
    pub open spec fn is_fed<F: Fn(Op, T, T, T) -> T>(
        &self,
        token: Seq<T>,
        calc: Calc<T, F>,
        out: Seq<T>,
    ) -> bool {
        exists|
            normalized: Seq<T>,
            gate: Seq<T>,
            up: Seq<T>,
            active: Seq<T>,
            back: Seq<T>,
            scaled: Seq<T>,
        |
            {
                &&& is_norm(token, self.ffn_norm@, 0x3727_c5ac, calc, normalized)
                &&& gate.len() == 3072
                &&& #[trigger] is_linear(normalized, self.feed_forward_w1@, calc, gate)
                &&& up.len() == 3072
                &&& #[trigger] is_linear(normalized, self.feed_forward_w3@, calc, up)
                &&& is_zipped(gate, up, Op::GateOver, calc, active)
                &&& back.len() == 1024
                &&& #[trigger] is_linear(active, self.feed_forward_w2@, calc, back)
                &&& #[trigger] is_zipped(back, self.ffn_layer_scale@, Op::Times, calc, scaled)
                &&& is_zipped(token, scaled, Op::Plus, calc, out)
            }
    }

    /// Whether the layer leads from frames to frames.
    pub open spec fn is_layer<F: Fn(Op, T, T, T) -> T>(
        &self,
        tokens: Seq<Seq<T>>,
        window: int,
        calc: Calc<T, F>,
        out: Seq<Seq<T>>,
    ) -> bool {
        &&& out.len() == tokens.len()
        &&& exists|p: Seq<PreparedToken<T>>, middle: Seq<Seq<T>>|
            {
                &&& #[trigger] self.are_prepared(tokens, calc, p)
                &&& #[trigger] self.are_asked(tokens, window, p, calc, middle)
                &&& forall|i: int|
                    0 <= i < out.len() ==> self.is_fed(middle[i], calc, #[trigger] out[i])
            }
    }

    /// What the layer does.
    pub open spec fn does<F: Fn(Op, T, T, T) -> T>(
        &self,
        tokens: Seq<Seq<T>>,
        window: usize,
        calc: Calc<T, F>,
        r: Result<Seq<Seq<T>>, ErrorView>,
    ) -> bool {
        match self.layer_error(tokens, window) {
            Some(e) => r == Err::<Seq<Seq<T>>, ErrorView>(e),
            None => r matches Ok(out) && self.is_layer(tokens, window as int, calc, out),
        }
    }

    fn prepare<F: Fn(Op, T, T, T) -> T>(
        &self,
        token: &[T],
        position: usize,
        calc: &Calc<T, F>,
    ) -> (r: Result<PreparedToken<T>, InferError>)
        requires
            calc.works(),
            token@.len() == 1024,
        ensures
            match r {
                Ok(p) => {
                    &&& norm_error(1024, self.attention_norm@.len()) is None
                    &&& linear_error(1024, self.attention_wqkv@.len(), 1024, 3072) is None
                    &&& self.is_prepared(token@, position, *calc, p)
                    &&& p.query@.len() == 1024
                    &&& p.key@.len() == 1024
                    &&& p.value@.len() == 1024
                },
                Err(e) => or_else(
                    norm_error(1024, self.attention_norm@.len()),
                    linear_error(1024, self.attention_wqkv@.len(), 1024, 3072),
                ) == Some(e@),
            },
    {
        let normalized = match rms_norm_f32(
            token,
            self.attention_norm.as_slice(),
            0x3727_c5ac,
            calc,
        ) {
            Err(e) => {
                return Err(e);
            },
            Ok(v) => v,
        };
        let qkv = match CpuMatmulBackend::new().linear(
            normalized.as_slice(),
            self.attention_wqkv.as_slice(),
            1024,
            3072,
            calc,
        ) {
            Err(e) => {
                return Err(e);
            },
            Ok(v) => v,
        };
        let mut query = slice_to_vec(slice_subrange(qkv.as_slice(), 0, 1024));
        let mut key = slice_to_vec(slice_subrange(qkv.as_slice(), 1024, 2048));
        let value = slice_to_vec(slice_subrange(qkv.as_slice(), 2048, 3072));
        match apply_rope_normal(&mut query, 64, position, 0x461c_4000, "10000", calc) {
            Err(e) => {
                assert(false);
                return Err(e);
            },
            Ok(_) => {},
        }
        match apply_rope_normal(&mut key, 64, position, 0x461c_4000, "10000", calc) {
            Err(e) => {
                assert(false);
                return Err(e);
            },
            Ok(_) => {},
        }
        assert(is_linear(normalized@, self.attention_wqkv@, *calc, qkv@));
        Ok(PreparedToken { query, key, value })
    }

    fn ask<F: Fn(Op, T, T, T) -> T>(
        &self,
        token: &[T],
        query: &[T],
        keys: &[T],
        values: &[T],
        visible: usize,
        window: Ghost<usize>,
        calc: &Calc<T, F>,
    ) -> (r: Result<Vec<T>, InferError>)
        requires
            calc.works(),
            token@.len() == 1024,
            query@.len() == 1024,
            keys@.len() == visible * 1024,
            values@.len() == visible * 1024,
            keys@.len() <= usize::MAX,
            (visible == 0) == (window@ == 0),
            norm_error(1024, self.attention_norm@.len()) is None,
            linear_error(1024, self.attention_wqkv@.len(), 1024, 3072) is None,
        ensures
            match r {
                Ok(v) => self.weights_error(window@) == self.feed_error() && self.is_asked(
                    token@,
                    query@,
                    keys@,
                    values@,
                    visible,
                    *calc,
                    v@,
                ) && v@.len() == 1024,
                Err(e) => self.weights_error(window@) == Some(e@),
            },
    {
        let shape = GqaAttentionShape {
            head_count: 16,
            head_count_kv: 16,
            head_dim: 64,
            token_count: visible,
            attn_scale: AttentionScale::OfHead(64),
        };
        let attention = match gqa_decode_attention(query, keys, values, shape, calc) {
            Err(e) => {
                proof {
                    lemma_no_frames_text();
                }
                return Err(e);
            },
            Ok(v) => v,
        };
        let projected = match CpuMatmulBackend::new().linear(
            attention.as_slice(),
            self.attention_output.as_slice(),
            1024,
            1024,
            calc,
        ) {
            Err(e) => {
                return Err(e);
            },
            Ok(v) => v,
        };
        let scaled = match scale_channels(
            projected.as_slice(),
            self.attention_layer_scale.as_slice(),
            calc,
        ) {
            Err(e) => {
                return Err(e);
            },
            Ok(v) => v,
        };
        let out = zip_with(token, scaled.as_slice(), Op::Plus, calc);
        proof {
            assert(is_linear(attention@, self.attention_output@, *calc, projected@));
            assert(is_zipped(
                projected@,
                self.attention_layer_scale@,
                Op::Times,
                *calc,
                scaled@,
            ));
        }
        Ok(out)
    }

    fn feed<F: Fn(Op, T, T, T) -> T>(&self, token: &[T], calc: &Calc<T, F>) -> (r: Result<
        Vec<T>,
        InferError,
    >)
        requires
            calc.works(),
            token@.len() == 1024,
        ensures
            match r {
                Ok(v) => self.feed_error() is None && self.is_fed(token@, *calc, v@) && v@.len()
                    == 1024,
                Err(e) => self.feed_error() == Some(e@),
            },
    {
        let backend = CpuMatmulBackend::new();
        let normalized = match rms_norm_f32(token, self.ffn_norm.as_slice(), 0x3727_c5ac, calc) {
            Err(e) => {
                return Err(e);
            },
            Ok(v) => v,
        };
        let gate = match backend.linear(
            normalized.as_slice(),
            self.feed_forward_w1.as_slice(),
            1024,
            3072,
            calc,
        ) {
            Err(e) => {
                return Err(e);
            },
            Ok(v) => v,
        };
        let up = match backend.linear(
            normalized.as_slice(),
            self.feed_forward_w3.as_slice(),
            1024,
            3072,
            calc,
        ) {
            Err(e) => {
                return Err(e);
            },
            Ok(v) => v,
        };
        let active = zip_with(gate.as_slice(), up.as_slice(), Op::GateOver, calc);
        let back = match backend.linear(
            active.as_slice(),
            self.feed_forward_w2.as_slice(),
            3072,
            1024,
            calc,
        ) {
            Err(e) => {
                return Err(e);
            },
            Ok(v) => v,
        };
        let scaled = match scale_channels(
            back.as_slice(),
            self.ffn_layer_scale.as_slice(),
            calc,
        ) {
            Err(e) => {
                return Err(e);
            },
            Ok(v) => v,
        };
        let out = zip_with(token, scaled.as_slice(), Op::Plus, calc);
        proof {
            assert(is_linear(normalized@, self.feed_forward_w1@, *calc, gate@));
            assert(is_linear(normalized@, self.feed_forward_w3@, *calc, up@));
            assert(is_linear(active@, self.feed_forward_w2@, *calc, back@));
            assert(is_zipped(back@, self.ffn_layer_scale@, Op::Times, *calc, scaled@));
        }
        Ok(out)
    }
}

proof fn lemma_no_frames_text()
    ensures
        "invalid attention dims: head_dim="@ + dec(64) + ", token_count="@ + dec(0)
            == "invalid attention dims: head_dim=64, token_count=0"@,
{
    reveal_with_fuel(dec, 3);
    reveal_strlit("invalid attention dims: head_dim=");
    reveal_strlit(", token_count=");
    reveal_strlit("invalid attention dims: head_dim=64, token_count=0");
    assert(dec(0) =~= seq!['0']);
    assert(dec(64) =~= seq!['6', '4']);
    assert("invalid attention dims: head_dim="@ + dec(64) + ", token_count="@ + dec(0)
        =~= "invalid attention dims: head_dim=64, token_count=0"@);
}

fn check_widths<T>(tokens: &Vec<Vec<T>>) -> (r: Result<(), InferError>)
    ensures
        crate::sizes::is_finding(
            r,
            first_of(width_errors(lists(tokens@)), 0, tokens@.len() as int),
        ),
        r is Ok ==> forall|i: int|
            0 <= i < tokens@.len() ==> (#[trigger] tokens@[i])@.len() == 1024,
{
    let ghost f = width_errors(lists(tokens@));
    let n: usize = tokens.len();
    let mut i: usize = 0;
    while i < n
        invariant
            i <= n,
            n == tokens@.len(),
            f == width_errors(lists(tokens@)),
            first_of(f, 0, n as int) == first_of(f, i as int, n as int),
            forall|k: int| 0 <= k < i ==> (#[trigger] tokens@[k])@.len() == 1024,
        decreases n - i,
    {
        let ghost here = f(i as int);
        let found: usize = tokens[i].len();
        if found != 1024 {
            let e = size_mismatch("codec post_module token length", 1024, found);
            assert(here == Some(e@));
            return Err(e);
        }
        assert(here is None);
        i = i + 1;
    }
    Ok(())
}

fn gather_rows<T: Copy>(
    prepared: &Vec<PreparedToken<T>>,
    start: usize,
    end: usize,
) -> (r: (Vec<T>, Vec<T>))
    requires
        start <= end <= prepared@.len(),
        forall|i: int|
            0 <= i < prepared@.len() ==> (#[trigger] prepared@[i]).key@.len() == 1024
                && prepared@[i].value@.len() == 1024,
    ensures
        r.0@ == flat(keys_of(prepared@).subrange(start as int, end as int)),
        r.1@ == flat(values_of(prepared@).subrange(start as int, end as int)),
        r.0@.len() == (end - start) * 1024,
        r.1@.len() == (end - start) * 1024,
        r.0@.len() <= usize::MAX,
{
    let ghost ks = keys_of(prepared@);
    let ghost vs = values_of(prepared@);
    let mut keys: Vec<T> = Vec::new();
    let mut values: Vec<T> = Vec::new();
    let mut j: usize = start;
    assert(ks.subrange(start as int, start as int) =~= Seq::empty());
    assert(vs.subrange(start as int, start as int) =~= Seq::empty());
    while j < end
        invariant
            start <= j <= end <= prepared@.len(),
            ks == keys_of(prepared@),
            vs == values_of(prepared@),
            keys@ == flat(ks.subrange(start as int, j as int)),
            values@ == flat(vs.subrange(start as int, j as int)),
        decreases end - j,
    {
        let mut key = slice_to_vec(prepared[j].key.as_slice());
        let mut value = slice_to_vec(prepared[j].value.as_slice());
        keys.append(&mut key);
        values.append(&mut value);
        proof {
            let nk = ks.subrange(start as int, j as int + 1);
            let nv = vs.subrange(start as int, j as int + 1);
            assert(nk.drop_last() =~= ks.subrange(start as int, j as int));
            assert(nv.drop_last() =~= vs.subrange(start as int, j as int));
            assert(nk.last() == prepared@[j as int].key@);
            assert(nv.last() == prepared@[j as int].value@);
        }
        j = j + 1;
    }
    proof {
        lemma_flat_size(ks.subrange(start as int, end as int), 1024);
        lemma_flat_size(vs.subrange(start as int, end as int), 1024);
    }
    let size: usize = keys.len();
    assert(size == keys@.len());
    (keys, values)
}

/// Lets a transformer layer work on frames, each of which sees itself and those up to a window
/// before it.
pub fn forward_codec_transformer_layer_with_window<T: Copy, F: Fn(Op, T, T, T) -> T>(
    tokens: &Vec<Vec<T>>,
    weights: &CodecTransformerLayerValues<T>,
    window_size: usize,
    calc: &Calc<T, F>,
) -> (r: Result<Vec<Vec<T>>, InferError>)
    requires
        calc.works(),
    ensures
        weights.does(lists(tokens@), window_size, *calc, list_outcome(r)),
        r matches Ok(v) ==> v@.len() == tokens@.len() && forall|i: int|
            0 <= i < v@.len() ==> (#[trigger] v@[i])@.len() == 1024,
{
    let n: usize = tokens.len();
    if n == 0 {
        return Err(InferError::text("codec transformer requires at least one frame"));
    }
    match check_widths(tokens) {
        Err(e) => {
            return Err(e);
        },
        Ok(_) => {},
    }
    let ghost frames = lists(tokens@);
    let mut prepared: Vec<PreparedToken<T>> = Vec::new();
    let mut i: usize = 0;
    while i < n
        invariant
            i <= n,
            n == tokens@.len(),
            frames == lists(tokens@),
            calc.works(),
            weights.layer_error(frames, window_size) == weights.weights_error(window_size),
            forall|k: int| 0 <= k < n ==> (#[trigger] tokens@[k])@.len() == 1024,
            i > 0 ==> norm_error(1024, weights.attention_norm@.len()) is None && linear_error(
                1024,
                weights.attention_wqkv@.len(),
                1024,
                3072,
            ) is None,
            prepared@.len() == i,
            forall|k: int|
                0 <= k < i ==> weights.is_prepared(
                    frames[k],
                    k as usize,
                    *calc,
                    #[trigger] prepared@[k],
                ) && prepared@[k].query@.len() == 1024 && prepared@[k].key@.len() == 1024
                    && prepared@[k].value@.len() == 1024,
        decreases n - i,
    {
        assert(tokens@[i as int]@.len() == 1024);
        match weights.prepare(tokens[i].as_slice(), i, calc) {
            Err(e) => {
                return Err(e);
            },
            Ok(p) => {
                prepared.push(p);
            },
        }
        i = i + 1;
    }
    assert(weights.are_prepared(frames, *calc, prepared@));
    let mut middle: Vec<Vec<T>> = Vec::new();
    let mut k: usize = 0;
    while k < n
        invariant
            k <= n,
            n == tokens@.len(),
            n == prepared@.len(),
            frames == lists(tokens@),
            calc.works(),
            weights.layer_error(frames, window_size) == weights.weights_error(window_size),
            norm_error(1024, weights.attention_norm@.len()) is None,
            linear_error(1024, weights.attention_wqkv@.len(), 1024, 3072) is None,
            forall|j: int| 0 <= j < n ==> (#[trigger] tokens@[j])@.len() == 1024,
            forall|j: int|
                0 <= j < n ==> (#[trigger] prepared@[j]).query@.len() == 1024
                    && prepared@[j].key@.len() == 1024 && prepared@[j].value@.len() == 1024,
            k > 0 ==> weights.weights_error(window_size) == weights.feed_error(),
            middle@.len() == k,
            forall|j: int|
                0 <= j < k ==> weights.is_asked(
                    frames[j],
                    prepared@[j].query@,
                    flat(
                        keys_of(prepared@).subrange(first_seen(j, window_size as int), j + 1),
                    ),
                    flat(
                        values_of(prepared@).subrange(first_seen(j, window_size as int), j + 1),
                    ),
                    (j + 1 - first_seen(j, window_size as int)) as usize,
                    *calc,
                    (#[trigger] middle@[j])@,
                ) && middle@[j]@.len() == 1024,
        decreases n - k,
    {
        let start: usize = (k + 1).saturating_sub(window_size);
        assert(start == first_seen(k as int, window_size as int));
        let (keys, values) = gather_rows(&prepared, start, k + 1);
        assert(tokens@[k as int]@.len() == 1024);
        assert(prepared@[k as int].query@.len() == 1024);
        match weights.ask(
            tokens[k].as_slice(),
            prepared[k].query.as_slice(),
            keys.as_slice(),
            values.as_slice(),
            k + 1 - start,
            Ghost(window_size),
            calc,
        ) {
            Err(e) => {
                return Err(e);
            },
            Ok(v) => {
                middle.push(v);
            },
        }
        k = k + 1;
    }
    assert(weights.are_asked(frames, window_size as int, prepared@, *calc, lists(middle@)));
    let mut out: Vec<Vec<T>> = Vec::new();
    let mut m: usize = 0;
    while m < n
        invariant
            m <= n,
            n == middle@.len(),
            frames == lists(tokens@),
            calc.works(),
            weights.layer_error(frames, window_size) == weights.feed_error(),
            m > 0 ==> weights.feed_error() is None,
            forall|j: int| 0 <= j < n ==> (#[trigger] middle@[j])@.len() == 1024,
            out@.len() == m,
            forall|j: int|
                0 <= j < m ==> weights.is_fed(middle@[j]@, *calc, (#[trigger] out@[j])@)
                    && out@[j]@.len() == 1024,
        decreases n - m,
    {
        assert(middle@[m as int]@.len() == 1024);
        match weights.feed(middle[m].as_slice(), calc) {
            Err(e) => {
                return Err(e);
            },
            Ok(v) => {
                out.push(v);
            },
        }
        m = m + 1;
    }
    proof {
        let o = lists(out@);
        assert forall|j: int| 0 <= j < o.len() implies weights.is_fed(
            lists(middle@)[j],
            *calc,
            #[trigger] o[j],
        ) by {
            assert(weights.is_fed(middle@[j]@, *calc, out@[j]@));
        }
        assert(weights.is_layer(frames, window_size as int, *calc, o));
    }
    Ok(out)
}

/// An executable outcome of lists as a mathematical value.
pub open spec fn list_outcome<T>(r: Result<Vec<Vec<T>>, InferError>) -> Result<
    Seq<Seq<T>>,
    ErrorView,
> {
    match r {
        Ok(v) => Ok(lists(v@)),
        Err(e) => Err(e@),
    }
}

} // verus!
