//! Convolutions and other steps over frames, each of which holds one value for every channel.
use crate::arith::{lemma_next_row, lemma_rows_monotone};
use crate::backend::{linear_error, CpuMatmulBackend};
use crate::error::{message, mismatch, size_mismatch, ErrorView, InferError};
use crate::flow::outcome;
use crate::numeric::{gathered, is_linear, lemma_rows_of_longer, row, row_of, Calc, Op};
use crate::sizes::{expect_len, is_finding, len_error, or_else};
use crate::slow_layer::{is_zipped, zip_with};
use crate::text::{dec, dec_usize};
use vstd::prelude::*;
use vstd::slice::slice_to_vec;
use vstd::string::*;

verus! {

// ---------------------------------------------------------------------
// Lengths
// ---------------------------------------------------------------------

/// What is wrong with a length that should be that of frames, if anything.
pub open spec fn frames_error(name: Seq<char>, found: nat, frames: nat, channels: nat) -> Option<
    ErrorView,
> {
    if frames * channels > usize::MAX {
        Some(message(name + " length overflow"@))
    } else {
        len_error(name, found, frames * channels)
    }
}

/// Checks a length that should be that of frames.
pub fn validate_frame_major_len(name: &str, found: usize, frames: usize, channels: usize) -> (r:
    Result<(), InferError>)
    ensures
        is_finding(r, frames_error(name@, found as nat, frames as nat, channels as nat)),
{
    match frames.checked_mul(channels) {
        None => Err(InferError::Message(String::from_str(name).concat(" length overflow"))),
        Some(expected) => if found == expected {
            Ok(())
        } else {
            let what = String::from_str(name).concat(" length");
            Err(size_mismatch(what.as_str(), expected, found))
        },
    }
}

/// Two lengths that should agree, or what is said where they do not.
pub open spec fn agree_error(
    what: Seq<char>,
    first: Seq<char>,
    a: nat,
    second: Seq<char>,
    b: nat,
) -> Option<ErrorView> {
    if a != b {
        Some(message(what + " length mismatch: "@ + first + dec(a) + second + dec(b)))
    } else {
        None
    }
}

fn check_agree(what: &str, first: &str, a: usize, second: &str, b: usize) -> (r: Result<
    (),
    InferError,
>)
    ensures
        is_finding(r, agree_error(what@, first@, a as nat, second@, b as nat)),
{
    if a != b {
        let x = dec_usize(a);
        let y = dec_usize(b);
        return Err(
            InferError::Message(
                String::from_str(what).concat(" length mismatch: ").concat(first).concat(
                    x.as_str(),
                ).concat(second).concat(y.as_str()),
            ),
        );
    }
    Ok(())
}

// ---------------------------------------------------------------------
// Values one by one
// ---------------------------------------------------------------------

/// Whether one operation was carried out on every value.
pub open spec fn is_mapped<T: Copy, F: Fn(Op, T, T, T) -> T>(
    input: Seq<T>,
    o: Op,
    calc: Calc<T, F>,
    out: Seq<T>,
) -> bool {
    &&& out.len() == input.len()
    &&& forall|i: int|
        0 <= i < input.len() ==> calc.gives(o, input[i], calc.zero, calc.zero, #[trigger] out[i])
}

/// Carries out one operation on every value.
pub fn map_all<T: Copy, F: Fn(Op, T, T, T) -> T>(input: &[T], o: Op, calc: &Calc<T, F>) -> (r: Vec<
    T,
>)
    requires
        calc.works(),
    ensures
        is_mapped(input@, o, *calc, r@),
{
    let mut out: Vec<T> = Vec::new();
    let mut i: usize = 0;
    while i < input.len()
        invariant
            i <= input@.len(),
            calc.works(),
            out@.len() == i,
            forall|k: int|
                0 <= k < i ==> calc.gives(
                    o,
                    input@[k],
                    calc.zero,
                    calc.zero,
                    #[trigger] out@[k],
                ),
        decreases input@.len() - i,
    {
        let v: T = calc.one(o, input[i]);
        out.push(v);
        i = i + 1;
    }
    out
}

/// Whether one operation was carried out on every value and the value for its channel.
pub open spec fn is_per_channel<T: Copy, F: Fn(Op, T, T, T) -> T>(
    input: Seq<T>,
    channels: int,
    with: Seq<T>,
    o: Op,
    calc: Calc<T, F>,
    out: Seq<T>,
) -> bool {
    &&& out.len() == input.len()
    &&& forall|i: int|
        0 <= i < input.len() ==> calc.gives(
            o,
            input[i],
            with[i % channels],
            calc.zero,
            #[trigger] out[i],
        )
}

fn per_channel<T: Copy, F: Fn(Op, T, T, T) -> T>(
    input: &[T],
    channels: usize,
    with: &[T],
    o: Op,
    calc: &Calc<T, F>,
) -> (r: Vec<T>)
    requires
        calc.works(),
        with@.len() == channels,
        channels > 0 || input@.len() == 0,
    ensures
        is_per_channel(input@, channels as int, with@, o, *calc, r@),
{
    let mut out: Vec<T> = Vec::new();
    let mut i: usize = 0;
    while i < input.len()
        invariant
            i <= input@.len(),
            calc.works(),
            with@.len() == channels,
            channels > 0 || input@.len() == 0,
            out@.len() == i,
            forall|k: int|
                0 <= k < i ==> calc.gives(
                    o,
                    input@[k],
                    with@[k % (channels as int)],
                    calc.zero,
                    #[trigger] out@[k],
                ),
        decreases input@.len() - i,
    {
        let v: T = calc.two(o, input[i], with[i % channels]);
        out.push(v);
        i = i + 1;
    }
    out
}

/// What the snake activation does.
pub open spec fn snake_does<T: Copy, F: Fn(Op, T, T, T) -> T>(
    input: Seq<T>,
    frames: nat,
    channels: nat,
    alpha: Seq<T>,
    calc: Calc<T, F>,
    r: Result<Seq<T>, ErrorView>,
) -> bool {
    match or_else(
        frames_error("snake input"@, input.len(), frames, channels),
        len_error("snake alpha"@, alpha.len(), channels),
    ) {
        Some(e) => r == Err::<Seq<T>, ErrorView>(e),
        None => r matches Ok(out) && is_per_channel(
            input,
            channels as int,
            alpha,
            Op::Snake,
            calc,
            out,
        ),
    }
}

/// The snake activation, with one parameter for each channel.
pub fn snake_activation_frame_major<T: Copy, F: Fn(Op, T, T, T) -> T>(
    input: &[T],
    frames: usize,
    channels: usize,
    alpha: &[T],
    calc: &Calc<T, F>,
) -> (r: Result<Vec<T>, InferError>)
    requires
        calc.works(),
    ensures
        snake_does(input@, frames as nat, channels as nat, alpha@, *calc, outcome(r)),
{
    match validate_frame_major_len("snake input", input.len(), frames, channels) {
        Err(e) => {
            return Err(e);
        },
        Ok(_) => {},
    }
    match expect_len("snake alpha", alpha.len(), channels) {
        Err(e) => {
            return Err(e);
        },
        Ok(_) => {},
    }
    proof {
        lemma_no_channels(frames as int, channels as int);
    }
    Ok(per_channel(input, channels, alpha, Op::Snake, calc))
}

proof fn lemma_no_channels(frames: int, channels: int)
    ensures
        channels == 0 ==> frames * channels == 0,
{
    if channels == 0 {
        assert(frames * channels == 0) by (nonlinear_arith)
            requires
                channels == 0,
        ;
    }
}

/// What adding two lists does.
pub open spec fn sum_does<T: Copy, F: Fn(Op, T, T, T) -> T>(
    what: Seq<char>,
    residual: Seq<T>,
    delta: Seq<T>,
    calc: Calc<T, F>,
    r: Result<Seq<T>, ErrorView>,
) -> bool {
    match agree_error(what, "residual="@, residual.len(), " delta="@, delta.len()) {
        Some(e) => r == Err::<Seq<T>, ErrorView>(e),
        None => r matches Ok(out) && is_zipped(residual, delta, Op::Plus, calc, out),
    }
}

/// Adds two lists; `what` is what they are called where their lengths differ.
pub fn add_residual<T: Copy, F: Fn(Op, T, T, T) -> T>(
    what: &str,
    residual: &[T],
    delta: &[T],
    calc: &Calc<T, F>,
) -> (r: Result<Vec<T>, InferError>)
    requires
        calc.works(),
    ensures
        sum_does(what@, residual@, delta@, *calc, outcome(r)),
{
    match check_agree(what, "residual=", residual.len(), " delta=", delta.len()) {
        Err(e) => {
            return Err(e);
        },
        Ok(_) => {},
    }
    Ok(zip_with(residual, delta, Op::Plus, calc))
}

/// What scaling a list does.
pub open spec fn scale_does<T: Copy, F: Fn(Op, T, T, T) -> T>(
    values: Seq<T>,
    scale: Seq<T>,
    calc: Calc<T, F>,
    r: Result<Seq<T>, ErrorView>,
) -> bool {
    match agree_error("scale"@, "values="@, values.len(), " scale="@, scale.len()) {
        Some(e) => r == Err::<Seq<T>, ErrorView>(e),
        None => r matches Ok(out) && is_zipped(values, scale, Op::Times, calc, out),
    }
}

/// Multiplies each value by the factor at its place.
pub fn scale_channels<T: Copy, F: Fn(Op, T, T, T) -> T>(
    values: &[T],
    scale: &[T],
    calc: &Calc<T, F>,
) -> (r: Result<Vec<T>, InferError>)
    requires
        calc.works(),
    ensures
        scale_does(values@, scale@, *calc, outcome(r)),
{
    match check_agree("scale", "values=", values.len(), " scale=", scale.len()) {
        Err(e) => {
            return Err(e);
        },
        Ok(_) => {},
    }
    Ok(zip_with(values, scale, Op::Times, calc))
}

/// What adding a bias does.
pub open spec fn bias_does<T: Copy, F: Fn(Op, T, T, T) -> T>(
    values: Seq<T>,
    bias: Seq<T>,
    calc: Calc<T, F>,
    r: Result<Seq<T>, ErrorView>,
) -> bool {
    match agree_error("bias"@, "output="@, values.len(), " bias="@, bias.len()) {
        Some(e) => r == Err::<Seq<T>, ErrorView>(e),
        None => r matches Ok(out) && is_zipped(values, bias, Op::Plus, calc, out),
    }
}

/// Adds a bias.
pub fn add_bias<T: Copy, F: Fn(Op, T, T, T) -> T>(
    values: &[T],
    bias: &[T],
    calc: &Calc<T, F>,
) -> (r: Result<Vec<T>, InferError>)
    requires
        calc.works(),
    ensures
        bias_does(values@, bias@, *calc, outcome(r)),
{
    match check_agree("bias", "output=", values.len(), " bias=", bias.len()) {
        Err(e) => {
            return Err(e);
        },
        Ok(_) => {},
    }
    Ok(zip_with(values, bias, Op::Plus, calc))
}

/// What is wrong with scaling frames, if anything.
pub open spec fn scale_frames_error(values: nat, channels: nat, scale: nat) -> Option<ErrorView> {
    if scale != channels {
        Some(
            message(
                "frame-major scale length mismatch: channels="@ + dec(channels) + " scale="@ + dec(
                    scale,
                ),
            ),
        )
    } else if channels == 0 || values % channels != 0 {
        Some(
            message(
                "frame-major values length "@ + dec(values) + " is not divisible by channels "@
                    + dec(channels),
            ),
        )
    } else {
        None
    }
}

/// What scaling frames does.
pub open spec fn scale_frames_does<T: Copy, F: Fn(Op, T, T, T) -> T>(
    values: Seq<T>,
    channels: nat,
    scale: Seq<T>,
    calc: Calc<T, F>,
    r: Result<Seq<T>, ErrorView>,
) -> bool {
    match scale_frames_error(values.len(), channels, scale.len()) {
        Some(e) => r == Err::<Seq<T>, ErrorView>(e),
        None => r matches Ok(out) && is_per_channel(
            values,
            channels as int,
            scale,
            Op::Times,
            calc,
            out,
        ),
    }
}

/// Multiplies every frame by one factor for each channel.
pub fn scale_frame_major_channels<T: Copy, F: Fn(Op, T, T, T) -> T>(
    values: &[T],
    channels: usize,
    scale: &[T],
    calc: &Calc<T, F>,
) -> (r: Result<Vec<T>, InferError>)
    requires
        calc.works(),
        channels > 0 || values@.len() > 0,
    ensures
        scale_frames_does(values@, channels as nat, scale@, *calc, outcome(r)),
{
    if scale.len() != channels {
        let a = dec_usize(channels);
        let b = dec_usize(scale.len());
        return Err(
            InferError::Message(
                String::from_str("frame-major scale length mismatch: channels=").concat(
                    a.as_str(),
                ).concat(" scale=").concat(b.as_str()),
            ),
        );
    }
    if channels == 0 || values.len() % channels != 0 {
        let a = dec_usize(values.len());
        let b = dec_usize(channels);
        return Err(
            InferError::Message(
                String::from_str("frame-major values length ").concat(a.as_str()).concat(
                    " is not divisible by channels ",
                ).concat(b.as_str()),
            ),
        );
    }
    Ok(per_channel(values, channels, scale, Op::Times, calc))
}

// ---------------------------------------------------------------------
// Norms and tables, frame by frame
// ---------------------------------------------------------------------

/// Whether `out` is a frame less its mean, scaled by what comes from its variance, weighted, and
/// with a bias added.
pub open spec fn is_layer_norm<T: Copy, F: Fn(Op, T, T, T) -> T>(
    frame: Seq<T>,
    weight: Seq<T>,
    bias: Seq<T>,
    eps: u32,
    calc: Calc<T, F>,
    out: Seq<T>,
) -> bool {
    let n = frame.len() as usize;
    let z = calc.zero;
    &&& out.len() == frame.len()
    &&& exists|total: Seq<T>, mean: T, centered: Seq<T>, spread: T, scale: T, weighted: Seq<T>|
        {
            &&& #[trigger] crate::attention::folded(total, frame, z, Op::Plus, calc)
            &&& total.len() == frame.len() + 1
            &&& #[trigger] calc.gives(Op::OverCount(n), total.last(), z, z, mean)
            &&& centered.len() == frame.len()
            &&& forall|i: int|
                0 <= i < frame.len() ==> calc.gives(
                    Op::Minus,
                    frame[i],
                    mean,
                    z,
                    #[trigger] centered[i],
                )
            &&& #[trigger] gathered(crate::numeric::pairs(centered, centered), z, calc, spread)
            &&& #[trigger] calc.gives(Op::NormScale(n, eps), spread, z, z, scale)
            &&& weighted.len() == frame.len()
            &&& forall|i: int|
                0 <= i < frame.len() ==> calc.gives(
                    Op::Weigh,
                    centered[i],
                    scale,
                    weight[i],
                    #[trigger] weighted[i],
                )
            &&& #[trigger] is_zipped(weighted, bias, Op::Plus, calc, out)
        }
}

fn norm_frame<T: Copy, F: Fn(Op, T, T, T) -> T>(
    frame: &[T],
    weight: &[T],
    bias: &[T],
    eps: u32,
    calc: &Calc<T, F>,
) -> (r: Vec<T>)
    requires
        calc.works(),
        weight@.len() == frame@.len(),
        bias@.len() == frame@.len(),
    ensures
        is_layer_norm(frame@, weight@, bias@, eps, *calc, r@),
{
    let n: usize = frame.len();
    let copy = slice_to_vec(frame);
    let total = crate::attention::fold_all(&copy, calc.zero, Op::Plus, calc);
    let mean: T = calc.one(Op::OverCount(n), total.0);
    let centered = crate::attention::map_with(&copy, mean, Op::Minus, calc);
    let spread: T = crate::numeric::dot(centered.as_slice(), centered.as_slice(), calc);
    let scale: T = calc.one(Op::NormScale(n, eps), spread);
    let mut weighted: Vec<T> = Vec::new();
    let mut i: usize = 0;
    while i < n
        invariant
            i <= n,
            n == frame@.len(),
            weight@.len() == n,
            centered@.len() == n,
            calc.works(),
            weighted@.len() == i,
            forall|k: int|
                0 <= k < i ==> calc.gives(
                    Op::Weigh,
                    centered@[k],
                    scale,
                    weight@[k],
                    #[trigger] weighted@[k],
                ),
        decreases n - i,
    {
        let v: T = calc.run(Op::Weigh, centered[i], scale, weight[i]);
        weighted.push(v);
        i = i + 1;
    }
    let out = zip_with(weighted.as_slice(), bias, Op::Plus, calc);
    proof {
        let chain = total.1@;
        let z = calc.zero;
        assert(crate::attention::folded(chain, frame@, z, Op::Plus, *calc));
        assert(calc.gives(Op::OverCount(frame@.len() as usize), chain.last(), z, z, mean));
        assert(gathered(crate::numeric::pairs(centered@, centered@), z, *calc, spread));
        assert(calc.gives(Op::NormScale(frame@.len() as usize, eps), spread, z, z, scale));
        assert(is_zipped(weighted@, bias@, Op::Plus, *calc, out@));
    }
    out
}

/// What is wrong with norming frames, if anything.
pub open spec fn layer_norm_error(
    values: nat,
    frames: nat,
    channels: nat,
    weight: nat,
    bias: nat,
) -> Option<ErrorView> {
    or_else(
        frames_error("layer_norm input"@, values, frames, channels),
        if weight != channels || bias != channels {
            Some(
                message(
                    "layer_norm affine length mismatch: channels="@ + dec(channels) + " weight="@
                        + dec(weight) + " bias="@ + dec(bias),
                ),
            )
        } else {
            None
        },
    )
}

/// What norming frames does.
pub open spec fn layer_norm_does<T: Copy, F: Fn(Op, T, T, T) -> T>(
    values: Seq<T>,
    frames: nat,
    channels: nat,
    weight: Seq<T>,
    bias: Seq<T>,
    eps: u32,
    calc: Calc<T, F>,
    r: Result<Seq<T>, ErrorView>,
) -> bool {
    match layer_norm_error(values.len(), frames, channels, weight.len(), bias.len()) {
        Some(e) => r == Err::<Seq<T>, ErrorView>(e),
        None => r matches Ok(out) && out.len() == values.len() && forall|f: int|
            0 <= f < frames ==> is_layer_norm(
                #[trigger] row(values, f, channels as int),
                weight,
                bias,
                eps,
                calc,
                row(out, f, channels as int),
            ),
    }
}

/// Norms every frame.
pub fn layer_norm_affine_frame_major<T: Copy, F: Fn(Op, T, T, T) -> T>(
    values: &[T],
    frames: usize,
    channels: usize,
    weight: &[T],
    bias: &[T],
    eps: u32,
    calc: &Calc<T, F>,
) -> (r: Result<Vec<T>, InferError>)
    requires
        calc.works(),
    ensures
        layer_norm_does(
            values@,
            frames as nat,
            channels as nat,
            weight@,
            bias@,
            eps,
            *calc,
            outcome(r),
        ),
{
    let size: usize = values.len();
    match validate_frame_major_len("layer_norm input", size, frames, channels) {
        Err(e) => {
            return Err(e);
        },
        Ok(_) => {},
    }
    if weight.len() != channels || bias.len() != channels {
        let a = dec_usize(channels);
        let b = dec_usize(weight.len());
        let c = dec_usize(bias.len());
        return Err(
            InferError::Message(
                String::from_str("layer_norm affine length mismatch: channels=").concat(
                    a.as_str(),
                ).concat(" weight=").concat(b.as_str()).concat(" bias=").concat(c.as_str()),
            ),
        );
    }
    let mut out: Vec<T> = Vec::new();
    let mut f: usize = 0;
    assert(0 * channels == 0);
    while f < frames
        invariant
            f <= frames,
            size == values@.len(),
            size == frames * channels,
            weight@.len() == channels,
            bias@.len() == channels,
            calc.works(),
            out@.len() == f * channels,
            forall|k: int|
                0 <= k < f ==> is_layer_norm(
                    #[trigger] row(values@, k, channels as int),
                    weight@,
                    bias@,
                    eps,
                    *calc,
                    row(out@, k, channels as int),
                ),
        decreases frames - f,
    {
        proof {
            lemma_next_row(f as int, channels as int);
            lemma_rows_monotone(f as int + 1, frames as int, channels as int);
            lemma_rows_monotone(0, f as int, channels as int);
        }
        let frame = row_of(values, f, channels, Ghost(frames as int));
        let mut part = norm_frame(frame, weight, bias, eps, calc);
        let ghost before = out@;
        let ghost new = part@;
        out.append(&mut part);
        proof {
            lemma_rows_of_longer(before, new, f as int, channels as int);
        }
        f = f + 1;
    }
    Ok(out)
}

/// What is wrong with a table over frames, if anything.
pub open spec fn linear_frames_error(
    input: nat,
    frames: nat,
    input_dim: usize,
    output_dim: usize,
    weight: nat,
    bias: nat,
) -> Option<ErrorView> {
    or_else(
        frames_error("linear frame-major input"@, input, frames, input_dim as nat),
        or_else(
            len_error("linear frame-major bias"@, bias, output_dim as nat),
            if frames == 0 {
                None
            } else {
                linear_error(input_dim as nat, weight, input_dim, output_dim)
            },
        ),
    )
}

/// Whether `out` is a frame times a table, with a bias added.
pub open spec fn is_biased_linear<T: Copy, F: Fn(Op, T, T, T) -> T>(
    frame: Seq<T>,
    weight: Seq<T>,
    bias: Seq<T>,
    calc: Calc<T, F>,
    out: Seq<T>,
) -> bool {
    exists|plain: Seq<T>|
        plain.len() == bias.len() && #[trigger] is_linear(frame, weight, calc, plain) && is_zipped(
            plain,
            bias,
            Op::Plus,
            calc,
            out,
        )
}

/// What a table over frames does.
pub open spec fn linear_frames_does<T: Copy, F: Fn(Op, T, T, T) -> T>(
    input: Seq<T>,
    frames: nat,
    input_dim: usize,
    output_dim: usize,
    weight: Seq<T>,
    bias: Seq<T>,
    calc: Calc<T, F>,
    r: Result<Seq<T>, ErrorView>,
) -> bool {
    match linear_frames_error(
        input.len(),
        frames,
        input_dim,
        output_dim,
        weight.len(),
        bias.len(),
    ) {
        Some(e) => r == Err::<Seq<T>, ErrorView>(e),
        None => r matches Ok(out) && out.len() == frames * output_dim && forall|f: int|
            0 <= f < frames ==> is_biased_linear(
                #[trigger] row(input, f, input_dim as int),
                weight,
                bias,
                calc,
                row(out, f, output_dim as int),
            ),
    }
}

/// Multiplies every frame with a table and adds a bias.
pub fn linear_bias_frame_major<T: Copy, F: Fn(Op, T, T, T) -> T>(
    input: &[T],
    frames: usize,
    input_dim: usize,
    output_dim: usize,
    weight: &[T],
    bias: &[T],
    calc: &Calc<T, F>,
) -> (r: Result<Vec<T>, InferError>)
    requires
        calc.works(),
    ensures
        linear_frames_does(
            input@,
            frames as nat,
            input_dim,
            output_dim,
            weight@,
            bias@,
            *calc,
            outcome(r),
        ),
{
    let size: usize = input.len();
    match validate_frame_major_len("linear frame-major input", size, frames, input_dim) {
        Err(e) => {
            return Err(e);
        },
        Ok(_) => {},
    }
    match expect_len("linear frame-major bias", bias.len(), output_dim) {
        Err(e) => {
            return Err(e);
        },
        Ok(_) => {},
    }
    let mut out: Vec<T> = Vec::new();
    let mut f: usize = 0;
    assert(0 * output_dim == 0);
    while f < frames
        invariant
            f <= frames,
            size == input@.len(),
            size == frames * input_dim,
            bias@.len() == output_dim,
            calc.works(),
            out@.len() == f * output_dim,
            f > 0 ==> linear_error(
                input_dim as nat,
                weight@.len(),
                input_dim,
                output_dim,
            ) is None,
            linear_frames_error(
                input@.len(),
                frames as nat,
                input_dim,
                output_dim,
                weight@.len(),
                bias@.len(),
            ) == (if frames == 0 {
                None
            } else {
                linear_error(input_dim as nat, weight@.len(), input_dim, output_dim)
            }),
            forall|k: int|
                0 <= k < f ==> is_biased_linear(
                    #[trigger] row(input@, k, input_dim as int),
                    weight@,
                    bias@,
                    *calc,
                    row(out@, k, output_dim as int),
                ),
        decreases frames - f,
    {
        proof {
            lemma_next_row(f as int, input_dim as int);
            lemma_rows_monotone(f as int + 1, frames as int, input_dim as int);
            lemma_rows_monotone(0, f as int, input_dim as int);
            lemma_next_row(f as int, output_dim as int);
        }
        let frame = row_of(input, f, input_dim, Ghost(frames as int));
        let plain = match CpuMatmulBackend::new().linear(
            frame,
            weight,
            input_dim,
            output_dim,
            calc,
        ) {
            Err(e) => {
                return Err(e);
            },
            Ok(v) => v,
        };
        let mut part = zip_with(plain.as_slice(), bias, Op::Plus, calc);
        let ghost before = out@;
        let ghost new = part@;
        out.append(&mut part);
        proof {
            assert(is_linear(frame@, weight@, *calc, plain@));
            lemma_rows_of_longer(before, new, f as int, output_dim as int);
        }
        f = f + 1;
    }
    Ok(out)
}

} // verus!
