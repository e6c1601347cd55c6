//! Causal convolutions that work on each channel alone, and such as spread frames out.
use crate::arith::{lemma_cell, lemma_next_row, lemma_place, lemma_rows_monotone};
use crate::conv::{frames_error, validate_frame_major_len};
use crate::convolve::taps_of;
use crate::error::{message, mismatch, size_mismatch, ErrorView, InferError};
use crate::flow::outcome;
use crate::numeric::{
    gathered, lemma_gather_none, lemma_gather_one, sums_go_on_where_they_ended, Calc, Op,
};
use crate::sizes::or_else;
use crate::text::{dec, dec_usize};
use vstd::prelude::*;
use vstd::string::*;

verus! {

// ---------------------------------------------------------------------
// Each channel alone
// ---------------------------------------------------------------------

/// What is wrong with a convolution of each channel alone, if anything.
pub open spec fn depthwise_error(
    input: nat,
    frames: nat,
    channels: nat,
    kernel: nat,
    weight: nat,
    bias: nat,
) -> Option<ErrorView> {
    or_else(
        frames_error("depthwise conv input"@, input, frames, channels),
        if kernel * channels > usize::MAX {
            Some(message("depthwise conv weight length overflow"@))
        } else if weight != kernel * channels {
            Some(mismatch("depthwise conv weight length"@, kernel * channels, weight))
        } else if bias != channels {
            Some(mismatch("depthwise conv bias length"@, channels, bias))
        } else {
            None
        },
    )
}

/// The values and weights that the first `n` taps bring in: those of frames up to the output's.
pub open spec fn depthwise_terms<T>(
    input: Seq<T>,
    weight: Seq<T>,
    channels: int,
    kernel: int,
    frame: int,
    channel: int,
    n: nat,
) -> Seq<(T, T)>
    decreases n,
{
    if n == 0 {
        Seq::empty()
    } else {
        let before = depthwise_terms(
            input,
            weight,
            channels,
            kernel,
            frame,
            channel,
            (n - 1) as nat,
        );
        let back = kernel - n;
        if back <= frame {
            before.push(
                (
                    input[(frame - back) * channels + channel],
                    weight[channel * kernel + (n - 1)],
                ),
            )
        } else {
            before
        }
    }
}

/// Whether these are the outputs of a convolution of each channel alone.
pub open spec fn is_depthwise<T: Copy, F: Fn(Op, T, T, T) -> T>(
    input: Seq<T>,
    channels: int,
    kernel: nat,
    weight: Seq<T>,
    bias: Seq<T>,
    calc: Calc<T, F>,
    out: Seq<T>,
) -> bool {
    forall|k: int|
        0 <= k < out.len() ==> gathered(
            depthwise_terms(
                input,
                weight,
                channels,
                kernel as int,
                k / channels,
                k % channels,
                kernel,
            ),
            bias[k % channels],
            calc,
            #[trigger] out[k],
        )
}

/// What a convolution of each channel alone does.
pub open spec fn depthwise_does<T: Copy, F: Fn(Op, T, T, T) -> T>(
    input: Seq<T>,
    frames: nat,
    channels: nat,
    kernel: nat,
    weight: Seq<T>,
    bias: Seq<T>,
    calc: Calc<T, F>,
    r: Result<Seq<T>, ErrorView>,
) -> bool {
    match depthwise_error(input.len(), frames, channels, kernel, weight.len(), bias.len()) {
        Some(e) => r == Err::<Seq<T>, ErrorView>(e),
        None => r matches Ok(out) && out.len() == input.len() && is_depthwise(
            input,
            channels as int,
            kernel,
            weight,
            bias,
            calc,
            out,
        ),
    }
}

fn depthwise_cell<T: Copy, F: Fn(Op, T, T, T) -> T>(
    input: &[T],
    frames: usize,
    channels: usize,
    kernel: usize,
    weight: &[T],
    frame: usize,
    channel: usize,
    start: T,
    calc: &Calc<T, F>,
) -> (r: T)
    requires
        calc.works(),
        frame < frames,
        channel < channels,
        input.len() == frames * channels,
        weight.len() == kernel * channels,
    ensures
        gathered(
            depthwise_terms(
                input@,
                weight@,
                channels as int,
                kernel as int,
                frame as int,
                channel as int,
                kernel as nat,
            ),
            start,
            *calc,
            r,
        ),
{
    let mut sum: T = start;
    let mut n: usize = 0;
    proof {
        lemma_gather_none(
            depthwise_terms(
                input@,
                weight@,
                channels as int,
                kernel as int,
                frame as int,
                channel as int,
                0,
            ),
            start,
            *calc,
        );
    }
    while n < kernel
        invariant
            n <= kernel,
            calc.works(),
            frame < frames,
            channel < channels,
            input.len() == frames * channels,
            weight.len() == kernel * channels,
            gathered(
                depthwise_terms(
                    input@,
                    weight@,
                    channels as int,
                    kernel as int,
                    frame as int,
                    channel as int,
                    n as nat,
                ),
                start,
                *calc,
                sum,
            ),
        decreases kernel - n,
    {
        let back: usize = kernel - n - 1;
        if back <= frame {
            proof {
                lemma_cell(frame - back, frames as int, channel as int, channels as int);
                lemma_rows_monotone(0, frame - back, channels as int);
                lemma_cell(channel as int, channels as int, n as int, kernel as int);
                lemma_rows_monotone(0, channel as int, kernel as int);
                vstd::arithmetic::mul::lemma_mul_is_commutative(kernel as int, channels as int);
            }
            let value: T = input[(frame - back) * channels + channel];
            let w: T = weight[channel * kernel + n];
            let next: T = calc.run(Op::MulAdd, sum, value, w);
            proof {
                lemma_gather_one(
                    depthwise_terms(
                        input@,
                        weight@,
                        channels as int,
                        kernel as int,
                        frame as int,
                        channel as int,
                        n as nat,
                    ),
                    start,
                    *calc,
                    sum,
                    value,
                    w,
                    next,
                );
            }
            sum = next;
        }
        n = n + 1;
    }
    sum
}

/// Convolves each channel alone with a kernel that sees only what came before.
pub fn depthwise_causal_conv1d<T: Copy, F: Fn(Op, T, T, T) -> T>(
    input: &[T],
    frames: usize,
    channels: usize,
    kernel: usize,
    weight: &[T],
    bias: &[T],
    calc: &Calc<T, F>,
) -> (r: Result<Vec<T>, InferError>)
    requires
        calc.works(),
        kernel > 0 || depthwise_error(
            input@.len(),
            frames as nat,
            channels as nat,
            kernel as nat,
            weight@.len(),
            bias@.len(),
        ) is Some,
    ensures
        depthwise_does(
            input@,
            frames as nat,
            channels as nat,
            kernel as nat,
            weight@,
            bias@,
            *calc,
            outcome(r),
        ),
{
    match validate_frame_major_len("depthwise conv input", input.len(), frames, channels) {
        Err(e) => {
            return Err(e);
        },
        Ok(_) => {},
    }
    let size: usize = weight.len();
    match kernel.checked_mul(channels) {
        None => {
            return Err(InferError::text("depthwise conv weight length overflow"));
        },
        Some(expected) => {
            if size != expected {
                return Err(size_mismatch("depthwise conv weight length", expected, size));
            }
        },
    }
    if bias.len() != channels {
        return Err(size_mismatch("depthwise conv bias length", channels, bias.len()));
    }
    let mut out: Vec<T> = Vec::new();
    let mut f: usize = 0;
    assert(0 * channels == 0);
    while f < frames
        invariant
            f <= frames,
            calc.works(),
            input.len() == frames * channels,
            weight.len() == kernel * channels,
            bias@.len() == channels,
            out@.len() == f * channels,
            is_depthwise(
                input@,
                channels as int,
                kernel as nat,
                weight@,
                bias@,
                *calc,
                out@,
            ),
        decreases frames - f,
    {
        proof {
            lemma_next_row(f as int, channels as int);
        }
        let mut c: usize = 0;
        while c < channels
            invariant
                c <= channels,
                f < frames,
                calc.works(),
                input.len() == frames * channels,
                weight.len() == kernel * channels,
                bias@.len() == channels,
                out@.len() == f * channels + c,
                is_depthwise(
                    input@,
                    channels as int,
                    kernel as nat,
                    weight@,
                    bias@,
                    *calc,
                    out@,
                ),
            decreases channels - c,
        {
            let v: T = depthwise_cell(
                input,
                frames,
                channels,
                kernel,
                weight,
                f,
                c,
                bias[c],
                calc,
            );
            let ghost before = out@;
            out.push(v);
            proof {
                lemma_cell(f as int, f as int + 1, c as int, channels as int);
                assert forall|k: int| 0 <= k < out@.len() implies gathered(
                    depthwise_terms(
                        input@,
                        weight@,
                        channels as int,
                        kernel as int,
                        k / (channels as int),
                        k % (channels as int),
                        kernel as nat,
                    ),
                    bias@[k % (channels as int)],
                    *calc,
                    #[trigger] out@[k],
                ) by {
                    if k < before.len() {
                        assert(out@[k] == before[k]);
                    }
                }
            }
            c = c + 1;
        }
        f = f + 1;
    }
    Ok(out)
}

// ---------------------------------------------------------------------
// Spreading frames out
// ---------------------------------------------------------------------

/// The sizes of a convolution that spreads frames out.
#[derive(Debug, Clone, Copy, PartialEq, Eq, Structural)]
pub struct ConvTranspose1dSpec {
    pub frames: usize,
    pub in_ch: usize,
    pub out_ch: usize,
    pub stride: usize,
    pub crop_right: usize,
}

impl ConvTranspose1dSpec {
    /// How many taps the kernel has.
    pub open spec fn taps(self, weight: nat) -> nat {
        taps_of(weight, self.in_ch, self.out_ch)
    }

    /// What is wrong with the sizes of what is spread out, if anything.
    pub open spec fn size_error(self, input: nat, weight: nat, bias: nat) -> Option<ErrorView> {
        let expected = self.taps(weight) * ((self.in_ch * self.out_ch) as nat);
        or_else(
            frames_error("conv_transpose input"@, input, self.frames as nat, self.in_ch as nat),
            if weight != expected {
                Some(mismatch("conv_transpose weight length"@, expected, weight))
            } else if bias != self.out_ch {
                Some(mismatch("conv_transpose bias length"@, self.out_ch as nat, bias))
            } else if self.frames * self.stride > usize::MAX {
                Some(message("conv_transpose output frame overflow"@))
            } else {
                None
            },
        )
    }

    /// What is wrong with spreading frames out, if anything.
    pub open spec fn error(self, input: nat, weight: nat, bias: nat) -> Option<ErrorView> {
        or_else(
            self.size_error(input, weight, bias),
            if self.crop_right > 0 && self.crop_right >= self.frames * self.stride {
                Some(
                    message(
                        "conv_transpose crop_right "@ + dec(self.crop_right as nat)
                            + " exceeds output_frames "@ + dec((self.frames * self.stride) as nat),
                    ),
                )
            } else {
                None
            },
        )
    }

    /// Whether the cells of the table can be counted, and there is a channel to fill where the
    /// sizes are right.
    pub open spec fn usable(self, input: nat, weight: nat, bias: nat) -> bool {
        &&& frames_error(
            "conv_transpose input"@,
            input,
            self.frames as nat,
            self.in_ch as nat,
        ) is None ==> self.in_ch * self.out_ch <= usize::MAX
        &&& self.size_error(input, weight, bias) is None ==> 0 < self.out_ch
    }
}

/// The values and weights that one frame brings in.
pub open spec fn frame_terms<T: Copy>(
    s: ConvTranspose1dSpec,
    input: Seq<T>,
    weight: Seq<T>,
    out_frame: int,
    out_channel: int,
    frame: int,
) -> Seq<(T, T)> {
    let taps = s.taps(weight.len()) as int;
    let tap = out_frame - frame * s.stride;
    if 0 <= tap < taps {
        Seq::new(
            s.in_ch as nat,
            |c: int|
                (
                    input[frame * s.in_ch + c],
                    weight[(c * s.out_ch + out_channel) * taps + tap],
                ),
        )
    } else {
        Seq::empty()
    }
}

/// The values and weights that the first `n` frames bring in.
pub open spec fn spread_terms<T: Copy>(
    s: ConvTranspose1dSpec,
    input: Seq<T>,
    weight: Seq<T>,
    out_frame: int,
    out_channel: int,
    n: nat,
) -> Seq<(T, T)>
    decreases n,
{
    if n == 0 {
        Seq::empty()
    } else {
        spread_terms(s, input, weight, out_frame, out_channel, (n - 1) as nat) + frame_terms(
            s,
            input,
            weight,
            out_frame,
            out_channel,
            n - 1,
        )
    }
}

/// Whether a value is the sum of what all frames bring in, with the bias added at the end.
pub open spec fn is_spread_cell<T: Copy, F: Fn(Op, T, T, T) -> T>(
    s: ConvTranspose1dSpec,
    input: Seq<T>,
    weight: Seq<T>,
    bias: Seq<T>,
    calc: Calc<T, F>,
    out_frame: int,
    out_channel: int,
    r: T,
) -> bool {
    exists|sum: T|
        #[trigger] gathered(
            spread_terms(s, input, weight, out_frame, out_channel, s.frames as nat),
            calc.zero,
            calc,
            sum,
        ) && calc.gives(Op::Plus, sum, bias[out_channel], calc.zero, r)
}

/// Whether these are frames spread out.
pub open spec fn is_spread<T: Copy, F: Fn(Op, T, T, T) -> T>(
    s: ConvTranspose1dSpec,
    input: Seq<T>,
    weight: Seq<T>,
    bias: Seq<T>,
    calc: Calc<T, F>,
    out: Seq<T>,
) -> bool {
    forall|k: int|
        0 <= k < out.len() ==> is_spread_cell(
            s,
            input,
            weight,
            bias,
            calc,
            k / (s.out_ch as int),
            k % (s.out_ch as int),
            #[trigger] out[k],
        )
}

/// What spreading frames out does.
pub open spec fn spread_does<T: Copy, F: Fn(Op, T, T, T) -> T>(
    s: ConvTranspose1dSpec,
    input: Seq<T>,
    weight: Seq<T>,
    bias: Seq<T>,
    calc: Calc<T, F>,
    r: Result<Seq<T>, ErrorView>,
) -> bool {
    match s.error(input.len(), weight.len(), bias.len()) {
        Some(e) => r == Err::<Seq<T>, ErrorView>(e),
        None => r matches Ok(out) && out.len() == (s.frames * s.stride - s.crop_right) * s.out_ch
            && is_spread(s, input, weight, bias, calc, out),
    }
}

/// Frames that bring nothing in can be passed over.
proof fn lemma_idle_frames<T: Copy>(
    s: ConvTranspose1dSpec,
    input: Seq<T>,
    weight: Seq<T>,
    out_frame: int,
    out_channel: int,
    a: nat,
    b: nat,
)
    requires
        a <= b,
        forall|f: int|
            a <= f < b ==> (#[trigger] frame_terms(
                s,
                input,
                weight,
                out_frame,
                out_channel,
                f,
            )).len() == 0,
    ensures
        spread_terms(s, input, weight, out_frame, out_channel, b) == spread_terms(
            s,
            input,
            weight,
            out_frame,
            out_channel,
            a,
        ),
    decreases b - a,
{
    if a < b {
        lemma_idle_frames(s, input, weight, out_frame, out_channel, a, (b - 1) as nat);
        let last = frame_terms(s, input, weight, out_frame, out_channel, b - 1);
        assert(last =~= Seq::empty());
        assert(spread_terms(s, input, weight, out_frame, out_channel, b) =~= spread_terms(
            s,
            input,
            weight,
            out_frame,
            out_channel,
            (b - 1) as nat,
        ));
    }
}

fn spread_frame<T: Copy, F: Fn(Op, T, T, T) -> T>(
    s: ConvTranspose1dSpec,
    input: &[T],
    weight: &[T],
    taps: usize,
    tap: usize,
    out_frame: Ghost<int>,
    o: usize,
    frame: usize,
    start: T,
    calc: &Calc<T, F>,
) -> (r: T)
    requires
        calc.works(),
        o < s.out_ch,
        frame < s.frames,
        tap < taps,
        tap == out_frame@ - frame * s.stride,
        taps == s.taps(weight@.len()),
        weight.len() == taps * (s.in_ch * s.out_ch),
        input.len() == s.frames * s.in_ch,
    ensures
        gathered(
            frame_terms(s, input@, weight@, out_frame@, o as int, frame as int),
            start,
            *calc,
            r,
        ),
{
    let ghost terms = frame_terms(s, input@, weight@, out_frame@, o as int, frame as int);
    let mut sum: T = start;
    let mut c: usize = 0;
    proof {
        lemma_gather_none(terms.take(0), start, *calc);
    }
    while c < s.in_ch
        invariant
            c <= s.in_ch,
            calc.works(),
            o < s.out_ch,
            frame < s.frames,
            tap < taps,
            tap == out_frame@ - frame * s.stride,
            taps == s.taps(weight@.len()),
            weight.len() == taps * (s.in_ch * s.out_ch),
            input.len() == s.frames * s.in_ch,
            terms == frame_terms(s, input@, weight@, out_frame@, o as int, frame as int),
            gathered(terms.take(c as int), start, *calc, sum),
        decreases s.in_ch - c,
    {
        proof {
            lemma_cell(c as int, s.in_ch as int, o as int, s.out_ch as int);
            lemma_rows_monotone(0, c as int, s.out_ch as int);
            let place = c * s.out_ch + o;
            lemma_cell(place, s.in_ch * s.out_ch, tap as int, taps as int);
            assert((s.in_ch * s.out_ch) * taps == taps * (s.in_ch * s.out_ch)) by (nonlinear_arith);
            assert(place <= place * taps) by (nonlinear_arith)
                requires
                    0 <= place,
                    1 <= taps,
            ;
            lemma_cell(frame as int, s.frames as int, c as int, s.in_ch as int);
            lemma_rows_monotone(0, frame as int, s.in_ch as int);
        }
        let value: T = input[frame * s.in_ch + c];
        let w: T = weight[(c * s.out_ch + o) * taps + tap];
        let next: T = calc.run(Op::MulAdd, sum, value, w);
        proof {
            assert(terms[c as int] == (value, w));
            lemma_gather_one(terms.take(c as int), start, *calc, sum, value, w, next);
            assert(terms.take(c as int).push((value, w)) =~= terms.take(c as int + 1));
        }
        sum = next;
        c = c + 1;
    }
    assert(terms.take(c as int) =~= terms);
    sum
}

fn spread_cell<T: Copy, F: Fn(Op, T, T, T) -> T>(
    s: ConvTranspose1dSpec,
    input: &[T],
    weight: &[T],
    taps: usize,
    out_frame: usize,
    o: usize,
    calc: &Calc<T, F>,
) -> (r: T)
    requires
        calc.works(),
        o < s.out_ch,
        0 < s.stride,
        out_frame < s.frames * s.stride,
        taps == s.taps(weight@.len()),
        weight.len() == taps * (s.in_ch * s.out_ch),
        input.len() == s.frames * s.in_ch,
    ensures
        gathered(
            spread_terms(
                s,
                input@,
                weight@,
                out_frame as int,
                o as int,
                s.frames as nat,
            ),
            calc.zero,
            *calc,
            r,
        ),
{
    let last: usize = out_frame / s.stride;
    proof {
        lemma_place(out_frame as int, s.frames as int, s.stride as int);
        lemma_next_row(last as int, s.stride as int);
        if out_frame >= taps {
            vstd::arithmetic::div_mod::lemma_div_is_ordered(
                out_frame - taps,
                out_frame as int,
                s.stride as int,
            );
        }
    }
    let first: usize = if out_frame < taps {
        0
    } else {
        (out_frame - taps) / s.stride + 1
    };
    proof {
        if out_frame >= taps {
            let d = out_frame - taps;
            vstd::arithmetic::div_mod::lemma_fundamental_div_mod(d, s.stride as int);
            vstd::arithmetic::div_mod::lemma_mod_bound(d, s.stride as int);
            vstd::arithmetic::div_mod::lemma_div_pos_is_pos(d, s.stride as int);
            vstd::arithmetic::mul::lemma_mul_is_commutative(
                s.stride as int,
                d / (s.stride as int),
            );
        }
        assert forall|f: int| 0 <= f < first implies (#[trigger] frame_terms(
            s,
            input@,
            weight@,
            out_frame as int,
            o as int,
            f,
        )).len() == 0 by {
            lemma_rows_monotone(f, first - 1, s.stride as int);
        }
        lemma_idle_frames(s, input@, weight@, out_frame as int, o as int, 0, first as nat);
        lemma_gather_none(
            spread_terms(s, input@, weight@, out_frame as int, o as int, first as nat),
            calc.zero,
            *calc,
        );
    }
    let mut sum: T = calc.zero;
    let mut f: usize = first;
    while f <= last
        invariant
            first <= f <= last + 1,
            last < s.frames,
            last == out_frame as int / (s.stride as int),
            last * s.stride <= out_frame,
            out_frame < (last + 1) * s.stride,
            first > 0 ==> out_frame >= taps && first == (out_frame - taps) / (s.stride as int) + 1,
            first == 0 ==> out_frame < taps,
            calc.works(),
            o < s.out_ch,
            0 < s.stride,
            taps == s.taps(weight@.len()),
            weight.len() == taps * (s.in_ch * s.out_ch),
            input.len() == s.frames * s.in_ch,
            gathered(
                spread_terms(s, input@, weight@, out_frame as int, o as int, f as nat),
                calc.zero,
                *calc,
                sum,
            ),
        decreases last + 1 - f,
    {
        proof {
            lemma_rows_monotone(f as int, last as int, s.stride as int);
            lemma_first_tap(out_frame as int, taps as int, s.stride as int, first as int, f as int);
        }
        let tap: usize = out_frame - f * s.stride;
        let next: T = spread_frame(
            s,
            input,
            weight,
            taps,
            tap,
            Ghost(out_frame as int),
            o,
            f,
            sum,
            calc,
        );
        proof {
            sums_go_on_where_they_ended(
                spread_terms(s, input@, weight@, out_frame as int, o as int, f as nat),
                frame_terms(s, input@, weight@, out_frame as int, o as int, f as int),
                calc.zero,
                *calc,
                sum,
                next,
            );
        }
        sum = next;
        f = f + 1;
    }
    proof {
        assert forall|k: int| f <= k < s.frames implies (#[trigger] frame_terms(
            s,
            input@,
            weight@,
            out_frame as int,
            o as int,
            k,
        )).len() == 0 by {
            lemma_rows_monotone(last + 1, k, s.stride as int);
        }
        lemma_idle_frames(
            s,
            input@,
            weight@,
            out_frame as int,
            o as int,
            f as nat,
            s.frames as nat,
        );
    }
    sum
}

proof fn lemma_first_tap(out_frame: int, taps: int, stride: int, first: int, f: int)
    requires
        0 < stride,
        0 <= taps,
        0 <= out_frame,
        first <= f,
        0 <= first,
        first > 0 ==> out_frame >= taps && first == (out_frame - taps) / stride + 1,
        first == 0 ==> out_frame < taps,
    ensures
        out_frame - f * stride < taps,
{
    lemma_rows_monotone(first, f, stride);
    if first > 0 {
        let d = out_frame - taps;
        vstd::arithmetic::div_mod::lemma_fundamental_div_mod(d, stride);
        vstd::arithmetic::div_mod::lemma_mod_bound(d, stride);
        vstd::arithmetic::mul::lemma_mul_is_commutative(stride, d / stride);
        lemma_next_row(first - 1, stride);
    }
}

/// Spreads frames out: each brings in one kernel's worth of frames, a stride after the one before.
pub fn causal_conv_transpose_1d<T: Copy, F: Fn(Op, T, T, T) -> T>(
    input: &[T],
    spec: ConvTranspose1dSpec,
    weight: &[T],
    bias: &[T],
    calc: &Calc<T, F>,
) -> (r: Result<Vec<T>, InferError>)
    requires
        calc.works(),
        spec.usable(input@.len(), weight@.len(), bias@.len()),
    ensures
        spread_does(spec, input@, weight@, bias@, *calc, outcome(r)),
{
    let s = spec;
    match validate_frame_major_len("conv_transpose input", input.len(), s.frames, s.in_ch) {
        Err(e) => {
            return Err(e);
        },
        Ok(_) => {},
    }
    let size: usize = weight.len();
    let cells: usize = s.in_ch * s.out_ch;
    proof {
        if s.in_ch > 0 && s.out_ch > 0 {
            assert(cells > 0) by (nonlinear_arith)
                requires
                    cells == s.in_ch * s.out_ch,
                    s.in_ch > 0,
                    s.out_ch > 0,
            ;
            vstd::arithmetic::div_mod::lemma_fundamental_div_mod(size as int, cells as int);
            vstd::arithmetic::div_mod::lemma_mod_bound(size as int, cells as int);
            vstd::arithmetic::mul::lemma_mul_is_commutative(
                size as int / (cells as int),
                cells as int,
            );
        }
    }
    let taps: usize = if s.in_ch == 0 || s.out_ch == 0 {
        0
    } else {
        size / cells
    };
    assert(0 * cells == 0);
    let expected: usize = taps * cells;
    if size != expected {
        return Err(size_mismatch("conv_transpose weight length", expected, size));
    }
    if bias.len() != s.out_ch {
        return Err(size_mismatch("conv_transpose bias length", s.out_ch, bias.len()));
    }
    let all: usize = match s.frames.checked_mul(s.stride) {
        None => {
            return Err(InferError::text("conv_transpose output frame overflow"));
        },
        Some(n) => n,
    };
    if s.crop_right > 0 && s.crop_right >= all {
        let a = dec_usize(s.crop_right);
        let b = dec_usize(all);
        return Err(
            InferError::Message(
                String::from_str("conv_transpose crop_right ").concat(a.as_str()).concat(
                    " exceeds output_frames ",
                ).concat(b.as_str()),
            ),
        );
    }
    let count: usize = all - s.crop_right;
    let mut out: Vec<T> = Vec::new();
    let mut f: usize = 0;
    assert(0 * s.out_ch == 0);
    while f < count
        invariant
            f <= count,
            count <= s.frames * s.stride,
            calc.works(),
            taps == s.taps(weight@.len()),
            weight.len() == taps * (s.in_ch * s.out_ch),
            input.len() == s.frames * s.in_ch,
            bias@.len() == s.out_ch,
            out@.len() == f * s.out_ch,
            is_spread(s, input@, weight@, bias@, *calc, out@),
        decreases count - f,
    {
        proof {
            lemma_next_row(f as int, s.out_ch as int);
            assert(s.stride > 0) by (nonlinear_arith)
                requires
                    0 < s.frames * s.stride,
                    s.stride >= 0,
            ;
        }
        let mut o: usize = 0;
        while o < s.out_ch
            invariant
                o <= s.out_ch,
                f < s.frames * s.stride,
                calc.works(),
                0 < s.stride,
                taps == s.taps(weight@.len()),
                weight.len() == taps * (s.in_ch * s.out_ch),
                input.len() == s.frames * s.in_ch,
                bias@.len() == s.out_ch,
                out@.len() == f * s.out_ch + o,
                is_spread(s, input@, weight@, bias@, *calc, out@),
            decreases s.out_ch - o,
        {
            let sum: T = spread_cell(s, input, weight, taps, f, o, calc);
            let v: T = calc.two(Op::Plus, sum, bias[o]);
            let ghost before = out@;
            out.push(v);
            proof {
                lemma_cell(f as int, f as int + 1, o as int, s.out_ch as int);
                assert(is_spread_cell(
                    s,
                    input@,
                    weight@,
                    bias@,
                    *calc,
                    f as int,
                    o as int,
                    v,
                ));
                assert forall|k: int| 0 <= k < out@.len() implies is_spread_cell(
                    s,
                    input@,
                    weight@,
                    bias@,
                    *calc,
                    k / (s.out_ch as int),
                    k % (s.out_ch as int),
                    #[trigger] out@[k],
                ) by {
                    if k < before.len() {
                        assert(out@[k] == before[k]);
                    }
                }
            }
            o = o + 1;
        }
        f = f + 1;
    }
    Ok(out)
}

// ---------------------------------------------------------------------
// What comes out
// ---------------------------------------------------------------------

proof fn lemma_depthwise_met<T>(
    input: Seq<T>,
    weight: Seq<T>,
    channels: int,
    kernel: int,
    frame: int,
    channel: int,
    first: int,
    n: nat,
)
    requires
        0 <= frame,
        0 <= first <= n <= kernel,
        first == (if frame + 1 >= kernel {
            0
        } else {
            kernel - 1 - frame
        }),
    ensures
        ({
            let terms = depthwise_terms(input, weight, channels, kernel, frame, channel, n);
            &&& terms.len() == n - first
            &&& forall|j: int|
                0 <= j < n - first ==> #[trigger] terms[j] == (
                    input[(frame - (kernel - 1 - (first + j))) * channels + channel],
                    weight[channel * kernel + (first + j)],
                )
        }),
    decreases n,
{
    if n > first {
        lemma_depthwise_met(
            input,
            weight,
            channels,
            kernel,
            frame,
            channel,
            first,
            (n - 1) as nat,
        );
    } else {
        lemma_depthwise_idle(input, weight, channels, kernel, frame, channel, n);
    }
}

proof fn lemma_depthwise_idle<T>(
    input: Seq<T>,
    weight: Seq<T>,
    channels: int,
    kernel: int,
    frame: int,
    channel: int,
    n: nat,
)
    requires
        frame + n < kernel || n == 0,
    ensures
        depthwise_terms(input, weight, channels, kernel, frame, channel, n).len() == 0,
    decreases n,
{
    if n > 0 {
        lemma_depthwise_idle(input, weight, channels, kernel, frame, channel, (n - 1) as nat);
    }
}

/// Channel `c` of frame `f`: from its bias on, the same channel of the frame and of those before it,
/// as far as the kernel reaches, each times its weight. The last weight meets the frame itself.
pub proof fn channels_meet_their_own_past<T: Copy, F: Fn(Op, T, T, T) -> T>(
    input: Seq<T>,
    frames: nat,
    channels: nat,
    kernel: nat,
    weight: Seq<T>,
    bias: Seq<T>,
    calc: Calc<T, F>,
    out: Seq<T>,
    f: int,
    c: int,
)
    requires
        depthwise_does(input, frames, channels, kernel, weight, bias, calc, Ok(out)),
        0 < kernel,
        0 <= f < frames,
        0 <= c < channels,
    ensures
        out.len() == input.len(),
        input.len() == frames * channels,
        weight.len() == kernel * channels,
        bias.len() == channels,
        ({
            let first = if f + 1 >= kernel {
                0
            } else {
                kernel - 1 - f
            };
            crate::sums::adds_up(
                bias[c],
                Seq::new(
                    (kernel - first) as nat,
                    |j: int| input[(f - (kernel - 1 - (first + j))) * channels + c],
                ),
                Seq::new((kernel - first) as nat, |j: int| weight[c * kernel + (first + j)]),
                calc,
                out[f * channels + c],
            )
        }),
{
    let first = if f + 1 >= kernel {
        0
    } else {
        kernel - 1 - f
    };
    lemma_cell(f, frames as int, c, channels as int);
    lemma_depthwise_met(
        input,
        weight,
        channels as int,
        kernel as int,
        f,
        c,
        first,
        kernel,
    );
    let k = f * channels + c;
    let terms = depthwise_terms(input, weight, channels as int, kernel as int, f, c, kernel);
    assert(gathered(terms, bias[c], calc, out[k]));
    crate::sums::sums_add_products(
        terms,
        bias[c],
        calc,
        Seq::new(
            (kernel - first) as nat,
            |j: int| input[(f - (kernel - 1 - (first + j))) * channels + c],
        ),
        Seq::new((kernel - first) as nat, |j: int| weight[c * kernel + (first + j)]),
        out[k],
    );
}

/// The values of the frames from `first` to before `last`, frame by frame and channel by channel.
pub open spec fn spread_values<T>(
    s: ConvTranspose1dSpec,
    input: Seq<T>,
    first: int,
    last: int,
) -> Seq<T> {
    Seq::new(
        ((last - first) * s.in_ch) as nat,
        |j: int|
            input[(first + j / (s.in_ch as int)) * s.in_ch + j % (s.in_ch as int)],
    )
}

/// The weights by which frames from `first` to before `last` reach an output frame and channel: each
/// by the tap that tells how far the output frame lies behind the frame's own place.
pub open spec fn spread_weights<T>(
    s: ConvTranspose1dSpec,
    weight: Seq<T>,
    taps: int,
    out_frame: int,
    out_channel: int,
    first: int,
    last: int,
) -> Seq<T> {
    Seq::new(
        ((last - first) * s.in_ch) as nat,
        |j: int|
            weight[((j % (s.in_ch as int)) * s.out_ch + out_channel) * taps + (out_frame - (first
                + j / (s.in_ch as int)) * s.stride)],
    )
}

proof fn lemma_frames_reach<T: Copy>(
    s: ConvTranspose1dSpec,
    input: Seq<T>,
    weight: Seq<T>,
    out_frame: int,
    out_channel: int,
    first: int,
    last: int,
    n: nat,
)
    requires
        0 < s.in_ch,
        0 <= first <= n <= last,
        forall|k: int|
            0 <= k < last ==> (first <= k <==> 0 <= out_frame - #[trigger] (k * s.stride) < s.taps(
                weight.len(),
            )),
    ensures
        ({
            let taps = s.taps(weight.len()) as int;
            let terms = spread_terms(s, input, weight, out_frame, out_channel, n);
            &&& terms.len() == (n - first) * s.in_ch
            &&& forall|j: int|
                0 <= j < (n - first) * s.in_ch ==> #[trigger] terms[j] == (
                    spread_values(s, input, first, last)[j],
                    spread_weights(s, weight, taps, out_frame, out_channel, first, last)[j],
                )
        }),
    decreases n,
{
    let taps = s.taps(weight.len()) as int;
    let c = s.in_ch as int;
    if n > first {
        let m = (n - 1) as nat;
        lemma_frames_reach(s, input, weight, out_frame, out_channel, first, last, m);
        lemma_next_row(m - first, c);
        lemma_rows_monotone(n - first, last - first, c);
        assert(0 <= out_frame - m as int * s.stride < taps);
        let before = spread_terms(s, input, weight, out_frame, out_channel, m);
        let here = frame_terms(s, input, weight, out_frame, out_channel, m as int);
        let terms = spread_terms(s, input, weight, out_frame, out_channel, n);
        assert(here.len() == c);
        assert(terms == before + here);
        assert forall|j: int| 0 <= j < (n - first) * s.in_ch implies #[trigger] terms[j] == (
            spread_values(s, input, first, last)[j],
            spread_weights(s, weight, taps, out_frame, out_channel, first, last)[j],
        ) by {
            if j < (m - first) * c {
                assert(terms[j] == before[j]);
            } else {
                let k = j - (m - first) * c;
                lemma_cell(m - first, n - first, k, c);
                assert(terms[j] == here[k]);
            }
        }
    } else {
        assert forall|k: int| 0 <= k < n implies (#[trigger] frame_terms(
            s,
            input,
            weight,
            out_frame,
            out_channel,
            k,
        )).len() == 0 by {
            let _ = k * s.stride;
        }
        lemma_idle_frames(s, input, weight, out_frame, out_channel, 0, n);
        assert((n - first) * c == 0) by (nonlinear_arith)
            requires
                n == first,
        ;
    }
}

/// Output channel `o` of frame `f` of frames that are spread out: from zero on, each channel of each
/// frame whose kernel covers `f`, times the weight of the tap that `f` lies behind the frame's own
/// place, and the bias of the channel added at the end. The frames whose kernel covers `f` are those
/// from `first` to before `last`.
pub proof fn frames_are_spread_by_their_taps<T: Copy, F: Fn(Op, T, T, T) -> T>(
    s: ConvTranspose1dSpec,
    input: Seq<T>,
    weight: Seq<T>,
    bias: Seq<T>,
    calc: Calc<T, F>,
    out: Seq<T>,
    f: int,
    o: int,
    first: int,
    last: int,
)
    requires
        spread_does(s, input, weight, bias, calc, Ok(out)),
        0 < s.in_ch,
        0 <= o < s.out_ch,
        0 <= f < s.frames * s.stride - s.crop_right,
        0 <= first <= last <= s.frames,
        forall|k: int|
            0 <= k < s.frames ==> (first <= k < last <==> 0 <= f - #[trigger] (k * s.stride)
                < weight.len() as int / (s.in_ch * s.out_ch)),
    ensures
        out.len() == (s.frames * s.stride - s.crop_right) * s.out_ch,
        bias.len() == s.out_ch,
        exists|plain: T|
            crate::sums::adds_up(
                calc.zero,
                spread_values(s, input, first, last),
                spread_weights(
                    s,
                    weight,
                    weight.len() as int / (s.in_ch * s.out_ch),
                    f,
                    o,
                    first,
                    last,
                ),
                calc,
                plain,
            ) && #[trigger] calc.gives(
                Op::Plus,
                plain,
                bias[o],
                calc.zero,
                out[f * s.out_ch + o],
            ),
{
    let taps = s.taps(weight.len()) as int;
    let k = f * s.out_ch + o;
    lemma_cell(f, s.frames * s.stride - s.crop_right, o, s.out_ch as int);
    assert(is_spread_cell(
        s,
        input,
        weight,
        bias,
        calc,
        k / (s.out_ch as int),
        k % (s.out_ch as int),
        out[k],
    ));
    let all = spread_terms(s, input, weight, f, o, s.frames as nat);
    let sum = choose|sum: T|
        #[trigger] gathered(all, calc.zero, calc, sum) && calc.gives(
            Op::Plus,
            sum,
            bias[o],
            calc.zero,
            out[k],
        );
    assert forall|i: int| last <= i < s.frames implies (#[trigger] frame_terms(
        s,
        input,
        weight,
        f,
        o,
        i,
    )).len() == 0 by {
        let _ = i * s.stride;
    }
    lemma_idle_frames(s, input, weight, f, o, last as nat, s.frames as nat);
    assert forall|i: int| 0 <= i < last implies (first <= i <==> 0 <= f - #[trigger] (i * s.stride)
        < s.taps(weight.len())) by {}
    lemma_frames_reach(s, input, weight, f, o, first, last, last as nat);
    crate::sums::sums_add_products(
        all,
        calc.zero,
        calc,
        spread_values(s, input, first, last),
        spread_weights(s, weight, taps, f, o, first, last),
        sum,
    );
}

} // verus!
