//! The codec around its quantizers: transformers, and stages that change the frame rate.
use crate::arith::{lemma_next_row, lemma_rows_monotone};
use crate::backend::{is_norm, norm_error, rms_norm_f32};
use crate::codec_blocks::{
    downsample_output_frames, forward_codec_downsample_stage, forward_codec_upsample_stage,
};
use crate::codec_layer::{forward_codec_transformer_layer_with_window, list_outcome};
use crate::codec_weights::{CodecModuleValues, CodecStageValues, CodecTransformerLayerValues};
use crate::conv::{frames_error, validate_frame_major_len};
use crate::error::{message, ErrorView, InferError};
use crate::fast_ar::flat;
use crate::flow::{flows, lemma_start, lemma_step, outcome, reaches};
use crate::numeric::{row, Calc, Op};
use crate::slow_sequence::{first_of, lists};
use vstd::prelude::*;
use vstd::slice::slice_to_vec;
use vstd::string::*;

verus! {

// ---------------------------------------------------------------------
// Frames as lists
// ---------------------------------------------------------------------

/// The whole frames of a list of values.
pub open spec fn frames_of<T>(x: Seq<T>, width: nat) -> Seq<Seq<T>> {
    Seq::new(x.len() / width, |i: int| row(x, i, width as int))
}

/// Cuts a list of values into whole frames.
pub fn cut_frames<T: Copy>(x: &[T], width: usize) -> (r: Vec<Vec<T>>)
    requires
        width > 0,
    ensures
        lists(r@) == frames_of(x@, width as nat),
{
    let size: usize = x.len();
    let count: usize = size / width;
    proof {
        vstd::arithmetic::div_mod::lemma_fundamental_div_mod(size as int, width as int);
        vstd::arithmetic::div_mod::lemma_mod_bound(size as int, width as int);
        vstd::arithmetic::mul::lemma_mul_is_commutative(count as int, width as int);
    }
    let mut out: Vec<Vec<T>> = Vec::new();
    let mut i: usize = 0;
    while i < count
        invariant
            i <= count,
            size == x@.len(),
            count * width <= size,
            out@.len() == i,
            forall|k: int| 0 <= k < i ==> (#[trigger] out@[k])@ == row(x@, k, width as int),
        decreases count - i,
    {
        proof {
            lemma_next_row(i as int, width as int);
            lemma_rows_monotone(i as int + 1, count as int, width as int);
            lemma_rows_monotone(0, i as int, width as int);
        }
        let start: usize = i * width;
        out.push(slice_to_vec(vstd::slice::slice_subrange(x, start, start + width)));
        i = i + 1;
    }
    assert(lists(out@) =~= frames_of(x@, width as nat));
    out
}

/// Puts frames one after another.
pub fn join_frames<T: Copy>(frames: &Vec<Vec<T>>) -> (r: Vec<T>)
    ensures
        r@ == flat(lists(frames@)),
{
    let ghost all = lists(frames@);
    let mut out: Vec<T> = Vec::new();
    let mut i: usize = 0;
    assert(all.take(0) =~= Seq::empty());
    while i < frames.len()
        invariant
            i <= frames@.len(),
            all == lists(frames@),
            out@ == flat(all.take(i as int)),
        decreases frames@.len() - i,
    {
        let mut part = slice_to_vec(frames[i].as_slice());
        out.append(&mut part);
        proof {
            let next = all.take(i as int + 1);
            assert(next.drop_last() =~= all.take(i as int));
            assert(next.last() == frames@[i as int]@);
        }
        i = i + 1;
    }
    assert(all.take(i as int) =~= all);
    out
}

// ---------------------------------------------------------------------
// Transformers
// ---------------------------------------------------------------------

/// What is wrong with the last norm of each frame, if anything.
pub open spec fn last_norm_errors<T>(tokens: Seq<Seq<T>>, norm: nat) -> spec_fn(int) -> Option<
    ErrorView,
> {
    |i: int| norm_error(tokens[i].len(), norm)
}

/// What the last norm does.
pub open spec fn last_norm_does<T: Copy, F: Fn(Op, T, T, T) -> T>(
    tokens: Seq<Seq<T>>,
    norm: Option<Seq<T>>,
    calc: Calc<T, F>,
    r: Result<Seq<Seq<T>>, ErrorView>,
) -> bool {
    match norm {
        None => r == Err::<Seq<Seq<T>>, ErrorView>(message("missing encoder transformer norm"@)),
        Some(w) => match first_of(
            last_norm_errors(tokens, w.len()),
            0,
            tokens.len() as int,
        ) {
            Some(e) => r == Err::<Seq<Seq<T>>, ErrorView>(e),
            None => r matches Ok(out) && out.len() == tokens.len() && forall|i: int|
                0 <= i < out.len() ==> is_norm(
                    tokens[i],
                    w,
                    0x3727_c5ac,
                    calc,
                    #[trigger] out[i],
                ),
        },
    }
}

fn last_norm<T: Copy, F: Fn(Op, T, T, T) -> T>(
    tokens: &Vec<Vec<T>>,
    norm: Option<&Vec<T>>,
    calc: &Calc<T, F>,
) -> (r: Result<Vec<Vec<T>>, InferError>)
    requires
        calc.works(),
    ensures
        last_norm_does(lists(tokens@), maybe_values(norm), *calc, list_outcome(r)),
{
    let weight = match norm {
        None => {
            return Err(InferError::text("missing encoder transformer norm"));
        },
        Some(w) => w,
    };
    let ghost f = last_norm_errors(lists(tokens@), weight@.len());
    let n: usize = tokens.len();
    let mut out: Vec<Vec<T>> = Vec::new();
    let mut i: usize = 0;
    while i < n
        invariant
            i <= n,
            n == tokens@.len(),
            calc.works(),
            maybe_values(norm) == Some(weight@),
            f == last_norm_errors(lists(tokens@), weight@.len()),
            first_of(f, 0, n as int) == first_of(f, i as int, n as int),
            out@.len() == i,
            forall|k: int|
                0 <= k < i ==> is_norm(
                    tokens@[k]@,
                    weight@,
                    0x3727_c5ac,
                    *calc,
                    (#[trigger] out@[k])@,
                ),
        decreases n - i,
    {
        let ghost here = f(i as int);
        match rms_norm_f32(tokens[i].as_slice(), weight.as_slice(), 0x3727_c5ac, calc) {
            Err(e) => {
                assert(here == Some(e@));
                return Err(e);
            },
            Ok(v) => {
                assert(here is None);
                out.push(v);
            },
        }
        i = i + 1;
    }
    Ok(out)
}

/// Values that may be missing, as a sequence.
pub open spec fn maybe_values<T>(v: Option<&Vec<T>>) -> Option<Seq<T>> {
    match v {
        Some(x) => Some(x@),
        None => None,
    }
}

/// The steps of a transformer: its layers one after another, and the last norm.
pub open spec fn transformer_steps<T: Copy, F: Fn(Op, T, T, T) -> T>(
    layers: Seq<CodecTransformerLayerValues<T>>,
    window: usize,
    norm: Option<Seq<T>>,
    calc: Calc<T, F>,
) -> Seq<spec_fn(Seq<Seq<T>>, Result<Seq<Seq<T>>, ErrorView>) -> bool> {
    Seq::new(
        layers.len(),
        |i: int|
            |x: Seq<Seq<T>>, r: Result<Seq<Seq<T>>, ErrorView>| layers[i].does(x, window, calc, r),
    ).push(|x: Seq<Seq<T>>, r: Result<Seq<Seq<T>>, ErrorView>| last_norm_does(x, norm, calc, r))
}

/// An outcome of frames as one of values.
pub open spec fn joined_outcome<T>(r: Result<Seq<Seq<T>>, ErrorView>) -> Result<
    Seq<T>,
    ErrorView,
> {
    match r {
        Ok(v) => Ok(flat(v)),
        Err(e) => Err(e),
    }
}

/// What a transformer does to values that hold frames of a width.
pub open spec fn transformer_does<T: Copy, F: Fn(Op, T, T, T) -> T>(
    x: Seq<T>,
    width: nat,
    layers: Seq<CodecTransformerLayerValues<T>>,
    window: usize,
    norm: Option<Seq<T>>,
    calc: Calc<T, F>,
    r: Result<Seq<T>, ErrorView>,
) -> bool {
    exists|m: Result<Seq<Seq<T>>, ErrorView>|
        #[trigger] flows(
            transformer_steps(layers, window, norm, calc),
            frames_of(x, width),
            m,
        ) && r == joined_outcome(m)
}

fn run_transformer<T: Copy, F: Fn(Op, T, T, T) -> T>(
    tokens: Vec<Vec<T>>,
    layers: &Vec<CodecTransformerLayerValues<T>>,
    window: usize,
    norm: Option<&Vec<T>>,
    calc: &Calc<T, F>,
) -> (r: Result<Vec<Vec<T>>, InferError>)
    requires
        calc.works(),
    ensures
        flows(
            transformer_steps(layers@, window, maybe_values(norm), *calc),
            lists(tokens@),
            list_outcome(r),
        ),
{
    let ghost steps = transformer_steps(layers@, window, maybe_values(norm), *calc);
    let ghost start = lists(tokens@);
    proof {
        lemma_start(steps, start);
    }
    let mut current = tokens;
    let n: usize = layers.len();
    let mut i: usize = 0;
    while i < n
        invariant
            i <= n,
            n == layers@.len(),
            calc.works(),
            start == lists(tokens@),
            steps == transformer_steps(layers@, window, maybe_values(norm), *calc),
            reaches(steps, start, i as int, Ok(lists(current@))),
        decreases n - i,
    {
        let r = forward_codec_transformer_layer_with_window(&current, &layers[i], window, calc);
        proof {
            assert(steps[i as int](lists(current@), list_outcome(r)));
            lemma_step(steps, start, i as int, lists(current@), list_outcome(r));
        }
        match r {
            Err(e) => {
                return Err(e);
            },
            Ok(v) => {
                current = v;
            },
        }
        i = i + 1;
    }
    let r = last_norm(&current, norm, calc);
    proof {
        assert(steps[n as int](lists(current@), list_outcome(r)));
        lemma_step(steps, start, n as int, lists(current@), list_outcome(r));
    }
    r
}

/// Lets a transformer work on values that hold frames of a width.
pub fn forward_transformer<T: Copy, F: Fn(Op, T, T, T) -> T>(
    x: &[T],
    width: usize,
    layers: &Vec<CodecTransformerLayerValues<T>>,
    window: usize,
    norm: Option<&Vec<T>>,
    calc: &Calc<T, F>,
) -> (r: Result<Vec<T>, InferError>)
    requires
        calc.works(),
        width > 0,
    ensures
        transformer_does(
            x@,
            width as nat,
            layers@,
            window,
            maybe_values(norm),
            *calc,
            outcome(r),
        ),
{
    let tokens = cut_frames(x, width);
    let ghost start = lists(tokens@);
    let m = run_transformer(tokens, layers, window, norm, calc);
    proof {
        assert(flows(
            transformer_steps(layers@, window, maybe_values(norm), *calc),
            frames_of(x@, width as nat),
            list_outcome(m),
        ));
    }
    match m {
        Err(e) => Err(e),
        Ok(v) => Ok(join_frames(&v)),
    }
}

/// Frames after a transformer.
#[derive(Debug)]
pub struct CodecPostModuleResult<T> {
    pub n_frames: u32,
    pub hidden_dim: usize,
    pub hidden: Vec<T>,
}

impl<T: Copy> CodecModuleValues<T> {
    /// What the transformer after the quantizers does.
    pub open spec fn post_does<F: Fn(Op, T, T, T) -> T>(
        &self,
        latents: Seq<T>,
        n_frames: u32,
        calc: Calc<T, F>,
        r: Result<Seq<T>, ErrorView>,
    ) -> bool {
        match frames_error("post_module input"@, latents.len(), n_frames as nat, 1024) {
            Some(e) => r == Err::<Seq<T>, ErrorView>(e),
            None => transformer_does(
                latents,
                1024,
                self.layers@,
                128,
                Some(self.norm@),
                calc,
                r,
            ),
        }
    }
}

/// Lets the transformer after the quantizers work.
pub fn forward_codec_post_module<T: Copy, F: Fn(Op, T, T, T) -> T>(
    latents: &[T],
    n_frames: u32,
    weights: &CodecModuleValues<T>,
    calc: &Calc<T, F>,
) -> (r: Result<CodecPostModuleResult<T>, InferError>)
    requires
        calc.works(),
    ensures
        match r {
            Ok(v) => v.n_frames == n_frames && v.hidden_dim == 1024 && weights.post_does(
                latents@,
                n_frames,
                *calc,
                Ok(v.hidden@),
            ),
            Err(e) => weights.post_does(latents@, n_frames, *calc, Err(e@)),
        },
{
    match validate_frame_major_len("post_module input", latents.len(), n_frames as usize, 1024) {
        Err(e) => {
            return Err(e);
        },
        Ok(_) => {},
    }
    match forward_transformer(latents, 1024, &weights.layers, 128, Some(&weights.norm), calc) {
        Err(e) => Err(e),
        Ok(hidden) => Ok(CodecPostModuleResult { n_frames, hidden_dim: 1024, hidden }),
    }
}

// ---------------------------------------------------------------------
// Before the quantizers
// ---------------------------------------------------------------------

/// How many frames there are after `i` stages that lower the frame rate to the half.
pub open spec fn halved(frames: nat, i: nat) -> nat
    decreases i,
{
    if i == 0 {
        frames
    } else {
        let before = halved(frames, (i - 1) as nat);
        if before < 2 {
            0
        } else {
            ((before - 2) / 2 + 1) as nat
        }
    }
}

/// The steps before the quantizers: stages that lower the frame rate, and a transformer.
pub open spec fn encode_steps<T: Copy, F: Fn(Op, T, T, T) -> T>(
    frames: nat,
    stages: Seq<CodecStageValues<T>>,
    pre: CodecModuleValues<T>,
    calc: Calc<T, F>,
) -> Seq<spec_fn(Seq<T>, Result<Seq<T>, ErrorView>) -> bool> {
    Seq::new(
        stages.len(),
        |i: int|
            |x: Seq<T>, r: Result<Seq<T>, ErrorView>|
                stages[i].down_does(x, halved(frames, i as nat) as usize, calc, r),
    ).push(
        |x: Seq<T>, r: Result<Seq<T>, ErrorView>|
            transformer_does(x, 1024, pre.layers@, 128, Some(pre.norm@), calc, r),
    )
}

/// What is done before the quantizers.
pub open spec fn encode_does<T: Copy, F: Fn(Op, T, T, T) -> T>(
    latents: Seq<T>,
    n_frames: u32,
    stages: Seq<CodecStageValues<T>>,
    pre: CodecModuleValues<T>,
    calc: Calc<T, F>,
    r: Result<Seq<T>, ErrorView>,
) -> bool {
    match frames_error("codec quantizer encode input"@, latents.len(), n_frames as nat, 1024) {
        Some(e) => r == Err::<Seq<T>, ErrorView>(e),
        None => flows(encode_steps(n_frames as nat, stages, pre, calc), latents, r),
    }
}

/// Frames as they come to the quantizers.
#[derive(Debug)]
pub struct CodecEncodeStageResult<T> {
    pub input_frames: u32,
    pub output_frames: u32,
    pub hidden_dim: usize,
    pub hidden: Vec<T>,
}

proof fn lemma_down_needs_two<T: Copy, F: Fn(Op, T, T, T) -> T>(
    w: CodecStageValues<T>,
    x: Seq<T>,
    frames: usize,
    calc: Calc<T, F>,
    v: Seq<T>,
)
    requires
        w.down_does(x, frames, calc, Ok(v)),
    ensures
        frames >= 2,
{
    let steps = w.down_steps(frames, calc);
    let trace = choose|trace: Seq<Result<Seq<T>, ErrorView>>|
        #[trigger] crate::flow::follows(steps, x, trace) && trace.len() == 3 && trace.last()
            == Ok::<Seq<T>, ErrorView>(v);
    assert(trace[2] == Ok::<Seq<T>, ErrorView>(v));
    match trace[1] {
        Ok(u) => {
            assert(steps[1](u, trace[2]));
        },
        Err(e) => {
            assert(trace[2] == Err::<Seq<T>, ErrorView>(e));
        },
    }
}

/// Lowers the frame rate and lets a transformer work, as the quantizers need it.
pub fn forward_codec_quantizer_encode_stage<T: Copy, F: Fn(Op, T, T, T) -> T>(
    latents: &[T],
    n_frames: u32,
    stages: &Vec<CodecStageValues<T>>,
    pre: &CodecModuleValues<T>,
    calc: &Calc<T, F>,
) -> (r: Result<CodecEncodeStageResult<T>, InferError>)
    requires
        calc.works(),
        forall|i: int| 0 <= i < stages@.len() ==> (#[trigger] stages@[i]).halvable(),
    ensures
        match r {
            Ok(v) => {
                &&& v.input_frames == n_frames
                &&& v.output_frames == halved(n_frames as nat, stages@.len())
                &&& v.hidden_dim == 1024
                &&& encode_does(latents@, n_frames, stages@, *pre, *calc, Ok(v.hidden@))
            },
            Err(e) => encode_does(latents@, n_frames, stages@, *pre, *calc, Err(e@)),
        },
{
    match validate_frame_major_len(
        "codec quantizer encode input",
        latents.len(),
        n_frames as usize,
        1024,
    ) {
        Err(e) => {
            return Err(e);
        },
        Ok(_) => {},
    }
    let ghost steps = encode_steps(n_frames as nat, stages@, *pre, *calc);
    proof {
        lemma_start(steps, latents@);
    }
    let mut current = slice_to_vec(latents);
    let mut frames: usize = n_frames as usize;
    let n: usize = stages.len();
    let mut i: usize = 0;
    while i < n
        invariant
            i <= n,
            n == stages@.len(),
            calc.works(),
            forall|k: int| 0 <= k < stages@.len() ==> (#[trigger] stages@[k]).halvable(),
            steps == encode_steps(n_frames as nat, stages@, *pre, *calc),
            frames_error(
                "codec quantizer encode input"@,
                latents@.len(),
                n_frames as nat,
                1024,
            ) is None,
            frames == halved(n_frames as nat, i as nat),
            frames <= n_frames,
            reaches(steps, latents@, i as int, Ok(current@)),
        decreases n - i,
    {
        assert(stages@[i as int].halvable());
        let r = forward_codec_downsample_stage(current.as_slice(), frames, &stages[i], calc);
        proof {
            assert(steps[i as int](current@, outcome(r)));
            lemma_step(steps, latents@, i as int, current@, outcome(r));
        }
        match r {
            Err(e) => {
                return Err(e);
            },
            Ok(v) => {
                proof {
                    lemma_down_needs_two(stages@[i as int], current@, frames, *calc, v@);
                }
                current = v;
            },
        }
        frames = match downsample_output_frames(frames) {
            Err(e) => {
                assert(false);
                return Err(e);
            },
            Ok(m) => m,
        };
        i = i + 1;
    }
    let r = forward_transformer(
        current.as_slice(),
        1024,
        &pre.layers,
        128,
        Some(&pre.norm),
        calc,
    );
    proof {
        assert(steps[n as int](current@, outcome(r)));
        lemma_step(steps, latents@, n as int, current@, outcome(r));
    }
    match r {
        Err(e) => Err(e),
        Ok(hidden) => Ok(
            CodecEncodeStageResult {
                input_frames: n_frames,
                output_frames: frames as u32,
                hidden_dim: 1024,
                hidden,
            },
        ),
    }
}

// ---------------------------------------------------------------------
// After the quantizers
// ---------------------------------------------------------------------

/// How many frames there are after `i` stages that double the frame rate.
pub open spec fn doubled(frames: nat, i: nat) -> nat
    decreases i,
{
    if i == 0 {
        frames
    } else {
        2 * doubled(frames, (i - 1) as nat)
    }
}

/// The steps that raise the frame rate.
pub open spec fn upsample_steps<T: Copy, F: Fn(Op, T, T, T) -> T>(
    frames: nat,
    stages: Seq<CodecStageValues<T>>,
    calc: Calc<T, F>,
) -> Seq<spec_fn(Seq<T>, Result<Seq<T>, ErrorView>) -> bool> {
    Seq::new(
        stages.len(),
        |i: int|
            |x: Seq<T>, r: Result<Seq<T>, ErrorView>|
                stages[i].up_does(x, doubled(frames, i as nat) as usize, calc, r),
    ).push(
        |x: Seq<T>, r: Result<Seq<T>, ErrorView>|
            r == (if doubled(frames, stages.len()) > u32::MAX {
                Err::<Seq<T>, ErrorView>(
                    message("codec upsample output_frames overflows u32"@),
                )
            } else {
                Ok(x)
            }),
    )
}

/// What raising the frame rate does.
pub open spec fn upsample_does<T: Copy, F: Fn(Op, T, T, T) -> T>(
    hidden: Seq<T>,
    n_frames: u32,
    stages: Seq<CodecStageValues<T>>,
    calc: Calc<T, F>,
    r: Result<Seq<T>, ErrorView>,
) -> bool {
    match frames_error("codec upsample input"@, hidden.len(), n_frames as nat, 1024) {
        Some(e) => r == Err::<Seq<T>, ErrorView>(e),
        None => flows(upsample_steps(n_frames as nat, stages, calc), hidden, r),
    }
}

/// Frames at a higher rate.
#[derive(Debug)]
pub struct CodecUpsampleResult<T> {
    pub input_frames: u32,
    pub output_frames: u32,
    pub hidden_dim: usize,
    pub hidden: Vec<T>,
}

/// Raises the frame rate.
pub fn forward_codec_upsample<T: Copy, F: Fn(Op, T, T, T) -> T>(
    hidden: &[T],
    n_frames: u32,
    stages: &Vec<CodecStageValues<T>>,
    calc: &Calc<T, F>,
) -> (r: Result<CodecUpsampleResult<T>, InferError>)
    requires
        calc.works(),
    ensures
        match r {
            Ok(v) => {
                &&& v.input_frames == n_frames
                &&& v.output_frames == doubled(n_frames as nat, stages@.len())
                &&& v.hidden_dim == 1024
                &&& upsample_does(hidden@, n_frames, stages@, *calc, Ok(v.hidden@))
            },
            Err(e) => upsample_does(hidden@, n_frames, stages@, *calc, Err(e@)),
        },
{
    match validate_frame_major_len(
        "codec upsample input",
        hidden.len(),
        n_frames as usize,
        1024,
    ) {
        Err(e) => {
            return Err(e);
        },
        Ok(_) => {},
    }
    let ghost steps = upsample_steps(n_frames as nat, stages@, *calc);
    proof {
        lemma_start(steps, hidden@);
    }
    let mut current = slice_to_vec(hidden);
    let mut frames: usize = n_frames as usize;
    let n: usize = stages.len();
    let mut i: usize = 0;
    while i < n
        invariant
            i <= n,
            n == stages@.len(),
            calc.works(),
            steps == upsample_steps(n_frames as nat, stages@, *calc),
            frames_error("codec upsample input"@, hidden@.len(), n_frames as nat, 1024) is None,
            frames == doubled(n_frames as nat, i as nat),
            reaches(steps, hidden@, i as int, Ok(current@)),
        decreases n - i,
    {
        let r = forward_codec_upsample_stage(current.as_slice(), frames, &stages[i], calc);
        proof {
            assert(steps[i as int](current@, outcome(r)));
            lemma_step(steps, hidden@, i as int, current@, outcome(r));
        }
        match r {
            Err(e) => {
                return Err(e);
            },
            Ok(v) => {
                current = v;
            },
        }
        frames = frames * 2;
        i = i + 1;
    }
    if frames as u64 > u32::MAX as u64 {
        let e = InferError::text("codec upsample output_frames overflows u32");
        proof {
            assert(steps[n as int](current@, Err(e@)));
            lemma_step(steps, hidden@, n as int, current@, Err(e@));
        }
        return Err(e);
    }
    proof {
        assert(steps[n as int](current@, Ok(current@)));
        lemma_step(steps, hidden@, n as int, current@, Ok(current@));
    }
    Ok(
        CodecUpsampleResult {
            input_frames: n_frames,
            output_frames: frames as u32,
            hidden_dim: 1024,
            hidden: current,
        },
    )
}

/// Frames as the decoder needs them.
#[derive(Debug)]
pub struct CodecDecodeLatentsResult<T> {
    pub input_frames: u32,
    pub output_frames: u32,
    pub hidden_dim: usize,
    pub hidden: Vec<T>,
}

/// The steps from the quantizers to the decoder: a transformer, and a higher frame rate.
pub open spec fn latent_steps<T: Copy, F: Fn(Op, T, T, T) -> T>(
    n_frames: u32,
    post: CodecModuleValues<T>,
    stages: Seq<CodecStageValues<T>>,
    calc: Calc<T, F>,
) -> Seq<spec_fn(Seq<T>, Result<Seq<T>, ErrorView>) -> bool> {
    seq![
        |x: Seq<T>, r: Result<Seq<T>, ErrorView>| post.post_does(x, n_frames, calc, r),
        |x: Seq<T>, r: Result<Seq<T>, ErrorView>| upsample_does(x, n_frames, stages, calc, r),
    ]
}

/// Lets a transformer work on what the quantizers give and raises the frame rate, as the decoder
/// needs it.
pub fn rvq_decode_latents<T: Copy, F: Fn(Op, T, T, T) -> T>(
    latents: &[T],
    n_frames: u32,
    post: &CodecModuleValues<T>,
    stages: &Vec<CodecStageValues<T>>,
    calc: &Calc<T, F>,
) -> (r: Result<CodecDecodeLatentsResult<T>, InferError>)
    requires
        calc.works(),
    ensures
        match r {
            Ok(v) => {
                &&& v.input_frames == n_frames
                &&& v.output_frames == doubled(n_frames as nat, stages@.len())
                &&& v.hidden_dim == 1024
                &&& flows(latent_steps(n_frames, *post, stages@, *calc), latents@, Ok(v.hidden@))
            },
            Err(e) => flows(latent_steps(n_frames, *post, stages@, *calc), latents@, Err(e@)),
        },
{
    let ghost steps = latent_steps(n_frames, *post, stages@, *calc);
    proof {
        lemma_start(steps, latents@);
    }
    let after = match forward_codec_post_module(latents, n_frames, post, calc) {
        Err(e) => {
            proof {
                assert(steps[0](latents@, Err(e@)));
                lemma_step(steps, latents@, 0, latents@, Err(e@));
            }
            return Err(e);
        },
        Ok(v) => v,
    };
    proof {
        assert(steps[0](latents@, Ok(after.hidden@)));
        lemma_step(steps, latents@, 0, latents@, Ok(after.hidden@));
    }
    match forward_codec_upsample(after.hidden.as_slice(), n_frames, stages, calc) {
        Err(e) => {
            proof {
                assert(steps[1](after.hidden@, Err(e@)));
                lemma_step(steps, latents@, 1, after.hidden@, Err(e@));
            }
            Err(e)
        },
        Ok(v) => {
            proof {
                assert(steps[1](after.hidden@, Ok(v.hidden@)));
                lemma_step(steps, latents@, 1, after.hidden@, Ok(v.hidden@));
            }
            Ok(
                CodecDecodeLatentsResult {
                    input_frames: v.input_frames,
                    output_frames: v.output_frames,
                    hidden_dim: v.hidden_dim,
                    hidden: v.hidden,
                },
            )
        },
    }
}

} // verus!
