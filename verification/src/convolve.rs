//! Causal convolutions over frames.
use crate::arith::{lemma_cell, lemma_next_row, lemma_rows_monotone};
use crate::conv::{frames_error, validate_frame_major_len};
use crate::error::{message, mismatch, size_mismatch, ErrorView, InferError};
use crate::flow::outcome;
use crate::numeric::{gathered, lemma_gather_none, lemma_gather_one, Calc, Op};
use crate::single::{
    quotients_round_up, round_int, round_nat, round_quotient, single_int, single_nat, single_quotient,
    small_numbers_are_held, whole_quotients_are_exact, ONE,
};
use crate::sizes::or_else;
use vstd::prelude::*;
use vstd::string::*;

verus! {

// ---------------------------------------------------------------------
// Padding
// ---------------------------------------------------------------------

/// A number as a size: nothing below zero, and no more than fits.
pub open spec fn as_size(n: int) -> nat {
    if n < 0 {
        0
    } else if n > usize::MAX {
        usize::MAX as nat
    } else {
        n as nat
    }
}

/// How many steps lead from the first window of a padded input to the last. The windows are counted
/// in single precision and rounded up: length less kernel plus padding, over the stride, plus one.
/// There is no step where the input has no room for more than one of them.
pub open spec fn window_steps(length: nat, kernel: nat, stride: nat, padding: nat) -> nat {
    let room = single_int(
        single_int(single_int(length as int) - single_int(kernel as int)) + single_int(
            padding as int,
        ),
    );
    let by = single_int(stride as int);
    if room <= 0 {
        0
    } else if by <= 0 {
        (usize::MAX - 1) as nat
    } else {
        let windows = single_nat(single_quotient(room as nat, by as nat) + ONE as nat);
        as_size(as_size(((windows + ONE - 1) / (ONE as int)) as int) - 1)
    }
}

/// How much must be added to the end so that the last window is whole.
pub open spec fn extra_padding(length: nat, kernel: nat, stride: nat, padding: nat) -> nat {
    let before_last = as_size((window_steps(length, kernel, stride, padding) * stride) as int);
    let ideal = as_size((before_last + as_size(kernel - padding)) as int);
    as_size(ideal - length)
}

/// How much must be added to the end so that the last window is whole.
pub fn extra_padding_for_conv1d(
    length: usize,
    kernel_size: usize,
    stride: usize,
    padding_total: usize,
) -> (r: usize)
    ensures
        r == extra_padding(
            length as nat,
            kernel_size as nat,
            stride as nat,
            padding_total as nat,
        ),
{
    let l: i128 = round_int(length as i128);
    let k: i128 = round_int(kernel_size as i128);
    let p: i128 = round_int(padding_total as i128);
    let a: i128 = round_int(l - k);
    let room: i128 = round_int(a + p);
    let by: i128 = round_int(stride as i128);
    let steps: usize = if room <= 0 {
        0
    } else if by <= 0 {
        usize::MAX - 1
    } else {
        let ratio: u128 = round_quotient(room as u128, by as u128);
        let windows: u128 = round_nat(ratio + ONE);
        let whole: u128 = (windows + ONE - 1) / ONE;
        if whole > usize::MAX as u128 {
            usize::MAX - 1
        } else {
            (whole as usize).saturating_sub(1)
        }
    };
    let before_last: usize = match steps.checked_mul(stride) {
        None => usize::MAX,
        Some(n) => n,
    };
    let tail: usize = kernel_size.saturating_sub(padding_total);
    let ideal: usize = match before_last.checked_add(tail) {
        None => usize::MAX,
        Some(n) => n,
    };
    ideal.saturating_sub(length)
}

// ---------------------------------------------------------------------
// One-dimensional convolution
// ---------------------------------------------------------------------

/// The sizes of a convolution.
#[derive(Debug, Clone, Copy, PartialEq, Eq, Structural)]
pub struct Conv1dFrameMajorSpec {
    pub frames: usize,
    pub in_ch: usize,
    pub out_ch: usize,
    pub stride: usize,
    pub dilation: usize,
}

/// How many taps a table has: none without channels.
pub open spec fn taps_of(weight: nat, in_ch: usize, out_ch: usize) -> nat {
    if in_ch == 0 || out_ch == 0 {
        0
    } else {
        weight / ((in_ch * out_ch) as nat)
    }
}

impl Conv1dFrameMajorSpec {
    /// How many taps the kernel has.
    pub open spec fn taps(self, weight: nat) -> nat {
        taps_of(weight, self.in_ch, self.out_ch)
    }

    /// How many frames the kernel spans.
    pub open spec fn span(self, weight: nat) -> int {
        (self.taps(weight) - 1) * self.dilation + 1
    }

    /// How many frames of zeros stand before the input.
    pub open spec fn left_pad(self, weight: nat) -> nat {
        as_size(self.span(weight) - self.stride)
    }

    /// How many frames there are with those of zeros.
    pub open spec fn padded(self, weight: nat) -> nat {
        (self.frames as nat) + self.left_pad(weight) + extra_padding(
            self.frames as nat,
            self.span(weight) as nat,
            self.stride as nat,
            self.left_pad(weight),
        )
    }

    /// How many frames come out.
    pub open spec fn out_frames(self, weight: nat) -> nat {
        as_size(self.padded(weight) - self.span(weight)) / (self.stride as nat) + 1
    }

    /// Whether the kernel has a tap at least, and all sizes can be counted.
    pub open spec fn usable(self, weight: nat) -> bool {
        &&& 0 < self.in_ch
        &&& 0 < self.out_ch
        &&& self.in_ch * self.out_ch <= weight
        &&& self.span(weight) <= usize::MAX
        &&& weight <= usize::MAX
    }

    /// What is wrong with a convolution, if anything.
    pub open spec fn error(self, input: nat, weight: nat, bias: nat) -> Option<ErrorView> {
        let expected = self.taps(weight) * ((self.in_ch * self.out_ch) as nat);
        or_else(
            frames_error("causal conv input"@, input, self.frames as nat, self.in_ch as nat),
            if weight != expected {
                Some(mismatch("causal conv weight length"@, expected, weight))
            } else if bias != self.out_ch {
                Some(mismatch("causal conv bias length"@, self.out_ch as nat, bias))
            } else if self.padded(weight) > usize::MAX {
                Some(message("causal conv padded frame overflow"@))
            } else if self.stride == 0 {
                Some(message("causal conv output frame overflow"@))
            } else {
                None
            },
        )
    }
}

/// The value of a channel of a padded frame.
pub open spec fn padded_at<T>(
    input: Seq<T>,
    frames: int,
    channels: int,
    left_pad: int,
    frame: int,
    channel: int,
    zero: T,
) -> T {
    if left_pad <= frame < left_pad + frames {
        input[(frame - left_pad) * channels + channel]
    } else {
        zero
    }
}

/// The values and weights that one tap brings in.
pub open spec fn tap_terms<T: Copy>(
    s: Conv1dFrameMajorSpec,
    input: Seq<T>,
    weight: Seq<T>,
    zero: T,
    out_frame: int,
    out_channel: int,
    tap: int,
) -> Seq<(T, T)> {
    let taps = s.taps(weight.len()) as int;
    let source = out_frame * s.stride + tap * s.dilation;
    if source >= s.padded(weight.len()) {
        Seq::empty()
    } else {
        Seq::new(
            s.in_ch as nat,
            |c: int|
                (
                    padded_at(
                        input,
                        s.frames as int,
                        s.in_ch as int,
                        s.left_pad(weight.len()) as int,
                        source,
                        c,
                        zero,
                    ),
                    weight[(out_channel * s.in_ch + c) * taps + tap],
                ),
        )
    }
}

/// The values and weights that the first `n` taps bring in.
pub open spec fn conv_terms<T: Copy>(
    s: Conv1dFrameMajorSpec,
    input: Seq<T>,
    weight: Seq<T>,
    zero: T,
    out_frame: int,
    out_channel: int,
    n: nat,
) -> Seq<(T, T)>
    decreases n,
{
    if n == 0 {
        Seq::empty()
    } else {
        conv_terms(s, input, weight, zero, out_frame, out_channel, (n - 1) as nat) + tap_terms(
            s,
            input,
            weight,
            zero,
            out_frame,
            out_channel,
            n - 1,
        )
    }
}

/// Whether these are the outputs of a convolution: each sum starts from its channel's bias and
/// takes in tap after tap, channel after channel.
pub open spec fn is_conv<T: Copy, F: Fn(Op, T, T, T) -> T>(
    s: Conv1dFrameMajorSpec,
    input: Seq<T>,
    weight: Seq<T>,
    bias: Seq<T>,
    calc: Calc<T, F>,
    out: Seq<T>,
) -> bool {
    forall|k: int|
        0 <= k < out.len() ==> gathered(
            conv_terms(
                s,
                input,
                weight,
                calc.zero,
                k / (s.out_ch as int),
                k % (s.out_ch as int),
                s.taps(weight.len()),
            ),
            bias[k % (s.out_ch as int)],
            calc,
            #[trigger] out[k],
        )
}

/// What a convolution does.
pub open spec fn conv_does<T: Copy, F: Fn(Op, T, T, T) -> T>(
    s: Conv1dFrameMajorSpec,
    input: Seq<T>,
    weight: Seq<T>,
    bias: Seq<T>,
    calc: Calc<T, F>,
    r: Result<Seq<T>, ErrorView>,
) -> bool {
    match s.error(input.len(), weight.len(), bias.len()) {
        Some(e) => r == Err::<Seq<T>, ErrorView>(e),
        None => r matches Ok(out) && out.len() == s.out_frames(weight.len()) * s.out_ch && is_conv(
            s,
            input,
            weight,
            bias,
            calc,
            out,
        ),
    }
}

proof fn lemma_weight_place(o: int, out_ch: int, c: int, in_ch: int, tap: int, taps: int)
    requires
        0 <= o < out_ch,
        0 <= c < in_ch,
        0 <= tap < taps,
    ensures
        0 <= o * in_ch <= o * in_ch + c < out_ch * in_ch,
        o * in_ch + c <= (o * in_ch + c) * taps,
        (o * in_ch + c) * taps + tap < taps * (in_ch * out_ch),
{
    lemma_cell(o, out_ch, c, in_ch);
    lemma_rows_monotone(0, o, in_ch);
    lemma_cell(o * in_ch + c, out_ch * in_ch, tap, taps);
    let place = o * in_ch + c;
    assert(place <= place * taps) by (nonlinear_arith)
        requires
            0 <= place,
            1 <= taps,
    ;
    assert((out_ch * in_ch) * taps == taps * (in_ch * out_ch)) by (nonlinear_arith);
}

fn conv_tap<T: Copy, F: Fn(Op, T, T, T) -> T>(
    s: Conv1dFrameMajorSpec,
    input: &[T],
    weight: &[T],
    taps: usize,
    left_pad: usize,
    source: usize,
    out_frame: Ghost<int>,
    o: usize,
    tap: usize,
    start: T,
    calc: &Calc<T, F>,
) -> (r: T)
    requires
        calc.works(),
        o < s.out_ch,
        tap < taps,
        taps == s.taps(weight@.len()),
        weight.len() == taps * (s.in_ch * s.out_ch),
        input.len() == s.frames * s.in_ch,
        left_pad == s.left_pad(weight@.len()),
        source == out_frame@ * s.stride + tap * s.dilation,
        source < s.padded(weight@.len()),
    ensures
        gathered(
            tap_terms(s, input@, weight@, calc.zero, out_frame@, o as int, tap as int),
            start,
            *calc,
            r,
        ),
{
    let ghost terms = tap_terms(
        s,
        input@,
        weight@,
        calc.zero,
        out_frame@,
        o as int,
        tap as int,
    );
    let inside: bool = source >= left_pad && source - left_pad < s.frames;
    let mut sum: T = start;
    let mut c: usize = 0;
    proof {
        lemma_gather_none(terms.take(0), start, *calc);
    }
    while c < s.in_ch
        invariant
            c <= s.in_ch,
            calc.works(),
            o < s.out_ch,
            tap < taps,
            taps == s.taps(weight@.len()),
            weight.len() == taps * (s.in_ch * s.out_ch),
            input.len() == s.frames * s.in_ch,
            left_pad == s.left_pad(weight@.len()),
            source == out_frame@ * s.stride + tap * s.dilation,
            source < s.padded(weight@.len()),
            inside == (source >= left_pad && source - left_pad < s.frames),
            terms == tap_terms(
                s,
                input@,
                weight@,
                calc.zero,
                out_frame@,
                o as int,
                tap as int,
            ),
            gathered(terms.take(c as int), start, *calc, sum),
        decreases s.in_ch - c,
    {
        proof {
            lemma_weight_place(
                o as int,
                s.out_ch as int,
                c as int,
                s.in_ch as int,
                tap as int,
                taps as int,
            );
        }
        let value: T = if inside {
            proof {
                lemma_cell(source - left_pad, s.frames as int, c as int, s.in_ch as int);
                lemma_rows_monotone(0, source - left_pad, s.in_ch as int);
            }
            input[(source - left_pad) * s.in_ch + c]
        } else {
            calc.zero
        };
        let w: T = weight[(o * s.in_ch + c) * taps + tap];
        let next: T = calc.run(Op::MulAdd, sum, value, w);
        proof {
            assert(terms[c as int] == (value, w));
            lemma_gather_one(terms.take(c as int), start, *calc, sum, value, w, next);
            assert(terms.take(c as int).push((value, w)) =~= terms.take(c as int + 1));
        }
        sum = next;
        c = c + 1;
    }
    assert(terms.take(c as int) =~= terms);
    sum
}

fn conv_cell<T: Copy, F: Fn(Op, T, T, T) -> T>(
    s: Conv1dFrameMajorSpec,
    input: &[T],
    weight: &[T],
    taps: usize,
    left_pad: usize,
    padded: usize,
    out_frame: usize,
    o: usize,
    start: T,
    calc: &Calc<T, F>,
) -> (r: T)
    requires
        calc.works(),
        o < s.out_ch,
        taps == s.taps(weight@.len()),
        weight.len() == taps * (s.in_ch * s.out_ch),
        input.len() == s.frames * s.in_ch,
        left_pad == s.left_pad(weight@.len()),
        padded == s.padded(weight@.len()),
        s.span(weight@.len()) <= usize::MAX,
        out_frame * s.stride + s.span(weight@.len()) <= usize::MAX,
    ensures
        gathered(
            conv_terms(
                s,
                input@,
                weight@,
                calc.zero,
                out_frame as int,
                o as int,
                taps as nat,
            ),
            start,
            *calc,
            r,
        ),
{
    let mut sum: T = start;
    let mut tap: usize = 0;
    proof {
        lemma_gather_none(
            conv_terms(s, input@, weight@, calc.zero, out_frame as int, o as int, 0),
            start,
            *calc,
        );
    }
    while tap < taps
        invariant
            tap <= taps,
            calc.works(),
            o < s.out_ch,
            taps == s.taps(weight@.len()),
            weight.len() == taps * (s.in_ch * s.out_ch),
            input.len() == s.frames * s.in_ch,
            left_pad == s.left_pad(weight@.len()),
            padded == s.padded(weight@.len()),
            s.span(weight@.len()) <= usize::MAX,
            out_frame * s.stride + s.span(weight@.len()) <= usize::MAX,
            gathered(
                conv_terms(
                    s,
                    input@,
                    weight@,
                    calc.zero,
                    out_frame as int,
                    o as int,
                    tap as nat,
                ),
                start,
                *calc,
                sum,
            ),
        decreases taps - tap,
    {
        proof {
            lemma_rows_monotone(tap as int, taps - 1, s.dilation as int);
            lemma_rows_monotone(0, out_frame as int, s.stride as int);
        }
        let source: usize = out_frame * s.stride + tap * s.dilation;
        let ghost done = conv_terms(
            s,
            input@,
            weight@,
            calc.zero,
            out_frame as int,
            o as int,
            tap as nat,
        );
        let ghost here = tap_terms(
            s,
            input@,
            weight@,
            calc.zero,
            out_frame as int,
            o as int,
            tap as int,
        );
        assert(conv_terms(
            s,
            input@,
            weight@,
            calc.zero,
            out_frame as int,
            o as int,
            (tap + 1) as nat,
        ) == done + here);
        if source < padded {
            let next: T = conv_tap(
                s,
                input,
                weight,
                taps,
                left_pad,
                source,
                Ghost(out_frame as int),
                o,
                tap,
                sum,
                calc,
            );
            proof {
                crate::numeric::sums_go_on_where_they_ended(
                    done,
                    here,
                    start,
                    *calc,
                    sum,
                    next,
                );
            }
            sum = next;
        } else {
            assert(done + here =~= done);
        }
        tap = tap + 1;
    }
    sum
}

/// Convolves frames with a kernel that sees only what came before.
pub fn causal_conv_1d_frame_major<T: Copy, F: Fn(Op, T, T, T) -> T>(
    input: &[T],
    spec: Conv1dFrameMajorSpec,
    weight: &[T],
    bias: &[T],
    calc: &Calc<T, F>,
) -> (r: Result<Vec<T>, InferError>)
    requires
        calc.works(),
        frames_error(
            "causal conv input"@,
            input@.len(),
            spec.frames as nat,
            spec.in_ch as nat,
        ) is None ==> spec.usable(weight@.len()),
    ensures
        conv_does(spec, input@, weight@, bias@, *calc, outcome(r)),
{
    let s = spec;
    match validate_frame_major_len("causal conv input", input.len(), s.frames, s.in_ch) {
        Err(e) => {
            return Err(e);
        },
        Ok(_) => {},
    }
    let size: usize = weight.len();
    proof {
        assert(s.in_ch * s.out_ch > 0) by (nonlinear_arith)
            requires
                s.in_ch > 0,
                s.out_ch > 0,
        ;
    }
    let cells: usize = s.in_ch * s.out_ch;
    let taps: usize = size / cells;
    proof {
        vstd::arithmetic::div_mod::lemma_fundamental_div_mod(size as int, cells as int);
        vstd::arithmetic::div_mod::lemma_mod_bound(size as int, cells as int);
        vstd::arithmetic::mul::lemma_mul_is_commutative(taps as int, cells as int);
        vstd::arithmetic::div_mod::lemma_div_is_ordered(cells as int, size as int, cells as int);
        vstd::arithmetic::div_mod::lemma_div_by_self(cells as int);
        assert(taps >= 1);
        lemma_rows_monotone(0, taps - 1, s.dilation as int);
    }
    let expected: usize = taps * cells;
    if size != expected {
        return Err(size_mismatch("causal conv weight length", expected, size));
    }
    if bias.len() != s.out_ch {
        return Err(size_mismatch("causal conv bias length", s.out_ch, bias.len()));
    }
    let span: usize = (taps - 1) * s.dilation + 1;
    let left_pad: usize = span.saturating_sub(s.stride);
    let extra: usize = extra_padding_for_conv1d(s.frames, span, s.stride, left_pad);
    let some: usize = match s.frames.checked_add(left_pad) {
        None => {
            return Err(InferError::text("causal conv padded frame overflow"));
        },
        Some(n) => n,
    };
    let padded: usize = match some.checked_add(extra) {
        None => {
            return Err(InferError::text("causal conv padded frame overflow"));
        },
        Some(n) => n,
    };
    if s.stride == 0 {
        return Err(InferError::text("causal conv output frame overflow"));
    }
    let windows: usize = padded.saturating_sub(span) / s.stride;
    let mut out: Vec<T> = Vec::new();
    let mut f: usize = 0;
    assert(0 * s.out_ch == 0);
    loop
        invariant_except_break
            f <= windows,
            out@.len() == f * s.out_ch,
        invariant
            calc.works(),
            s == spec,
            s.usable(weight@.len()),
            s.stride > 0,
            taps == s.taps(weight@.len()),
            weight.len() == taps * (s.in_ch * s.out_ch),
            input.len() == s.frames * s.in_ch,
            left_pad == s.left_pad(weight@.len()),
            padded == s.padded(weight@.len()),
            span == s.span(weight@.len()),
            bias@.len() == s.out_ch,
            windows == as_size(padded - span) / (s.stride as nat),
            is_conv(s, input@, weight@, bias@, *calc, out@),
        ensures
            out@.len() == (windows + 1) * s.out_ch,
        decreases windows + 1 - f,
    {
        proof {
            lemma_window_inside(f as int, windows as int, padded as int, span as int, s.stride as int);
            lemma_next_row(f as int, s.out_ch as int);
        }
        let mut o: usize = 0;
        while o < s.out_ch
            invariant
                o <= s.out_ch,
                calc.works(),
                s.usable(weight@.len()),
                taps == s.taps(weight@.len()),
                weight.len() == taps * (s.in_ch * s.out_ch),
                input.len() == s.frames * s.in_ch,
                left_pad == s.left_pad(weight@.len()),
                padded == s.padded(weight@.len()),
                span == s.span(weight@.len()),
                bias@.len() == s.out_ch,
                f * s.stride + span <= usize::MAX,
                out@.len() == f * s.out_ch + o,
                is_conv(s, input@, weight@, bias@, *calc, out@),
            decreases s.out_ch - o,
        {
            let v: T = conv_cell(s, input, weight, taps, left_pad, padded, f, o, bias[o], calc);
            let ghost before = out@;
            out.push(v);
            proof {
                lemma_cell(f as int, f as int + 1, o as int, s.out_ch as int);
                assert forall|k: int| 0 <= k < out@.len() implies gathered(
                    conv_terms(
                        s,
                        input@,
                        weight@,
                        calc.zero,
                        k / (s.out_ch as int),
                        k % (s.out_ch as int),
                        s.taps(weight@.len()),
                    ),
                    bias@[k % (s.out_ch as int)],
                    *calc,
                    #[trigger] out@[k],
                ) by {
                    if k < before.len() {
                        assert(out@[k] == before[k]);
                    }
                }
            }
            o = o + 1;
        }
        if f == windows {
            break ;
        }
        f = f + 1;
    }
    Ok(out)
}

proof fn lemma_window_inside(f: int, windows: int, padded: int, span: int, stride: int)
    requires
        0 <= f <= windows,
        1 <= stride,
        0 <= padded <= usize::MAX,
        0 <= span <= usize::MAX,
        windows == as_size(padded - span) / (stride as nat),
    ensures
        f * stride + span <= usize::MAX,
{
    let room = as_size(padded - span) as int;
    vstd::arithmetic::div_mod::lemma_fundamental_div_mod(room, stride);
    vstd::arithmetic::div_mod::lemma_mod_bound(room, stride);
    lemma_rows_monotone(f, windows, stride);
    vstd::arithmetic::mul::lemma_mul_is_commutative(windows, stride);
}

// ---------------------------------------------------------------------
// What comes out
// ---------------------------------------------------------------------

/// The values that a kernel meets at an output frame, tap by tap and channel by channel: tap `t` sees
/// the frame that lies `t` dilations behind the first one that the kernel covers, where there is one.
pub open spec fn met_values<T>(
    s: Conv1dFrameMajorSpec,
    input: Seq<T>,
    taps: int,
    zero: T,
    out_frame: int,
) -> Seq<T> {
    let span = (taps - 1) * s.dilation + 1;
    let before = if span > s.stride {
        span - s.stride
    } else {
        0
    };
    Seq::new(
        (taps * s.in_ch) as nat,
        |j: int|
            {
                let source = out_frame * s.stride + (j / (s.in_ch as int)) * s.dilation - before;
                if 0 <= source < s.frames {
                    input[source * s.in_ch + j % (s.in_ch as int)]
                } else {
                    zero
                }
            },
    )
}

/// The weights of an output channel, tap by tap and channel by channel.
pub open spec fn met_weights<T>(
    s: Conv1dFrameMajorSpec,
    weight: Seq<T>,
    taps: int,
    out_channel: int,
) -> Seq<T> {
    Seq::new(
        (taps * s.in_ch) as nat,
        |j: int|
            weight[(out_channel * s.in_ch + j % (s.in_ch as int)) * taps + j / (s.in_ch as int)],
    )
}

proof fn lemma_room_for_kernel(s: Conv1dFrameMajorSpec, weight: nat)
    requires
        s.usable(weight),
    ensures
        s.span(weight) >= 1,
        s.left_pad(weight) == (if s.span(weight) > s.stride {
            s.span(weight) - s.stride
        } else {
            0
        }),
        s.padded(weight) >= s.span(weight),
{
    lemma_span_positive(s, weight);
}

proof fn lemma_taps_met<T: Copy>(
    s: Conv1dFrameMajorSpec,
    input: Seq<T>,
    weight: Seq<T>,
    zero: T,
    out_frame: int,
    out_channel: int,
    n: nat,
)
    requires
        s.usable(weight.len()),
        s.stride > 0,
        0 <= out_frame,
        n <= s.taps(weight.len()),
        out_frame * s.stride + s.span(weight.len()) <= s.padded(weight.len()),
    ensures
        ({
            let taps = s.taps(weight.len()) as int;
            let terms = conv_terms(s, input, weight, zero, out_frame, out_channel, n);
            &&& terms.len() == n * s.in_ch
            &&& forall|j: int|
                0 <= j < n * s.in_ch ==> #[trigger] terms[j] == (
                    met_values(s, input, taps, zero, out_frame)[j],
                    met_weights(s, weight, taps, out_channel)[j],
                )
        }),
    decreases n,
{
    let taps = s.taps(weight.len()) as int;
    let c = s.in_ch as int;
    lemma_room_for_kernel(s, weight.len());
    if n > 0 {
        let m = (n - 1) as nat;
        lemma_taps_met(s, input, weight, zero, out_frame, out_channel, m);
        lemma_rows_monotone(m as int, taps - 1, s.dilation as int);
        lemma_next_row(m as int, c);
        lemma_rows_monotone(n as int, taps, c);
        let before = conv_terms(s, input, weight, zero, out_frame, out_channel, m);
        let here = tap_terms(s, input, weight, zero, out_frame, out_channel, m as int);
        assert(here.len() == c);
        let terms = conv_terms(s, input, weight, zero, out_frame, out_channel, n);
        assert(terms == before + here);
        assert forall|j: int| 0 <= j < n * s.in_ch implies #[trigger] terms[j] == (
            met_values(s, input, taps, zero, out_frame)[j],
            met_weights(s, weight, taps, out_channel)[j],
        ) by {
            if j < m * c {
                assert(terms[j] == before[j]);
            } else {
                let k = j - m * c;
                lemma_cell(m as int, n as int, k, c);
                assert(terms[j] == here[k]);
            }
        }
    } else {
        assert(0 * c == 0) by (nonlinear_arith);
    }
}

/// Output channel `o` of frame `f`: from its bias on, each value that the kernel meets times the
/// weight of its tap and channel. The kernel covers no frame behind the last one of its stride: what
/// it meets lies `span - stride` frames before the start of the stride, or in the stride itself.
pub proof fn kernels_meet_what_came_before<T: Copy, F: Fn(Op, T, T, T) -> T>(
    s: Conv1dFrameMajorSpec,
    input: Seq<T>,
    weight: Seq<T>,
    bias: Seq<T>,
    calc: Calc<T, F>,
    out: Seq<T>,
    f: int,
    o: int,
)
    requires
        conv_does(s, input, weight, bias, calc, Ok(out)),
        s.usable(weight.len()),
        0 <= f,
        0 <= o < s.out_ch,
        f * s.out_ch + o < out.len(),
    ensures
        ({
            let taps = weight.len() as int / (s.in_ch * s.out_ch);
            &&& weight.len() == taps * (s.in_ch * s.out_ch)
            &&& bias.len() == s.out_ch
            &&& input.len() == s.frames * s.in_ch
            &&& crate::sums::adds_up(
                bias[o],
                met_values(s, input, taps, calc.zero, f),
                met_weights(s, weight, taps, o),
                calc,
                out[f * s.out_ch + o],
            )
        }),
{
    let n = weight.len();
    let taps = s.taps(n) as int;
    let k = f * s.out_ch + o;
    lemma_room_for_kernel(s, n);
    lemma_cell(f, f + 1, o, s.out_ch as int);
    let windows = as_size(s.padded(n) - s.span(n)) / (s.stride as nat);
    assert(f <= windows) by {
        if f > windows {
            lemma_rows_monotone(windows as int + 1, f, s.out_ch as int);
        }
    }
    assert(f * s.stride + s.span(n) <= s.padded(n)) by {
        let room = s.padded(n) - s.span(n);
        vstd::arithmetic::div_mod::lemma_fundamental_div_mod(room, s.stride as int);
        vstd::arithmetic::div_mod::lemma_mod_bound(room, s.stride as int);
        lemma_rows_monotone(f, windows as int, s.stride as int);
        vstd::arithmetic::mul::lemma_mul_is_commutative(windows as int, s.stride as int);
    }
    lemma_taps_met(s, input, weight, calc.zero, f, o, taps as nat);
    let terms = conv_terms(s, input, weight, calc.zero, f, o, taps as nat);
    assert(gathered(terms, bias[o], calc, out[k]));
    crate::sums::sums_add_products(
        terms,
        bias[o],
        calc,
        met_values(s, input, taps, calc.zero, f),
        met_weights(s, weight, taps, o),
        out[k],
    );
}

// ---------------------------------------------------------------------
// How many frames come out
// ---------------------------------------------------------------------

/// A convolution that moves on by one frame gives as many frames as it is given.
pub proof fn small_steps_keep_frames(s: Conv1dFrameMajorSpec, weight: nat)
    requires
        s.usable(weight),
        s.stride == 1,
        0 < s.frames < 0x100_0000,
        s.span(weight) < 0x100_0000,
    ensures
        s.out_frames(weight) == s.frames,
{
    let f = s.frames as int;
    let k = s.span(weight);
    lemma_span_positive(s, weight);
    small_numbers_are_held(f);
    small_numbers_are_held(k);
    small_numbers_are_held(f - k);
    small_numbers_are_held(k - 1);
    small_numbers_are_held(f - 1);
    small_numbers_are_held(1);
    assert((f - k) + (k - 1) == f - 1);
    if f > 1 {
        whole_quotients_are_exact((f - 1) as nat, 1);
        assert((f - 1) as nat * 1 == (f - 1) as nat);
        assert((f * ONE as int + ONE - 1) / (ONE as int) == f) by {
            vstd::arithmetic::div_mod::lemma_fundamental_div_mod_converse(
                f * ONE as int + ONE - 1,
                ONE as int,
                f,
                ONE as int - 1,
            );
        }
    }
    assert(window_steps(f as nat, k as nat, 1, (k - 1) as nat) == f - 1);
    assert((f - 1) * 1 == f - 1);
    assert(extra_padding(f as nat, k as nat, 1, (k - 1) as nat) == 0);
}

proof fn lemma_steps(f: int, m: int)
    requires
        0 < m < f < 0x40_0000,
    ensures
        ({
            let windows = single_nat(single_quotient((f - m) as nat, m as nat) + ONE as nat);
            as_size(as_size(((windows + ONE - 1) / (ONE as int)) as int) - 1) == (f + m - 1) / m - 1
        }),
{
    quotients_round_up((f - m) as nat, m as nat);
    lemma_rounds_up(f, m);
    let up = (f + m - 1) / m;
    assert(up <= up * m) by (nonlinear_arith)
        requires
            up >= 1,
            m >= 1,
    ;
}

/// A convolution whose kernel is twice as long as it moves on gives a frame for each step that it
/// was given, a part of a step counting as a whole one.
pub proof fn double_kernels_round_up(s: Conv1dFrameMajorSpec, weight: nat)
    requires
        s.usable(weight),
        s.dilation == 1,
        s.taps(weight) == 2 * s.stride,
        s.stride < 0x40_0000,
        0 < s.frames < 0x40_0000,
    ensures
        s.out_frames(weight) == (s.frames + s.stride - 1) / s.stride as int,
{
    let f = s.frames as int;
    let m = s.stride as int;
    let k = 2 * m;
    lemma_span_positive(s, weight);
    assert(s.span(weight) == k) by {
        assert((2 * m - 1) * 1 + 1 == k);
    }
    small_numbers_are_held(f);
    small_numbers_are_held(k);
    small_numbers_are_held(f - k);
    small_numbers_are_held(m);
    small_numbers_are_held(f - m);
    assert((f - k) + m == f - m);
    let up = (f + m - 1) / m;
    lemma_rounds_up(f, m);
    if f > m {
        lemma_steps(f, m);
    } else {
        assert(up == 1) by (nonlinear_arith)
            requires
                up >= 1,
                up * m < f + m,
                0 < f <= m,
        ;
    }
    assert(window_steps(f as nat, k as nat, m as nat, m as nat) == up - 1);
    assert((up - 1) * m + m == up * m) by (nonlinear_arith);
    assert(0 <= (up - 1) * m <= f) by (nonlinear_arith)
        requires
            up >= 1,
            m >= 1,
            up * m < f + m,
    ;
    assert(extra_padding(f as nat, k as nat, m as nat, m as nat) == up * m - f);
    assert(s.padded(weight) == m + up * m);
    assert((m + up * m - k) / m == up - 1) by {
        assert(m + up * m - k == (up - 1) * m) by (nonlinear_arith)
            requires
                k == 2 * m,
        ;
        vstd::arithmetic::div_mod::lemma_div_by_multiple(up - 1, m);
    }
}

proof fn lemma_rounds_up(f: int, m: int)
    requires
        0 < f,
        0 < m,
    ensures
        1 <= (f + m - 1) / m,
        f <= ((f + m - 1) / m) * m < f + m,
{
    let up = (f + m - 1) / m;
    vstd::arithmetic::div_mod::lemma_fundamental_div_mod(f + m - 1, m);
    vstd::arithmetic::div_mod::lemma_mod_bound(f + m - 1, m);
    assert(m * up == up * m) by (nonlinear_arith);
    if up <= 0 {
        assert(up * m <= 0) by (nonlinear_arith)
            requires
                up <= 0,
                m > 0,
        ;
    }
}

proof fn lemma_span_positive(s: Conv1dFrameMajorSpec, weight: nat)
    requires
        s.usable(weight),
    ensures
        s.taps(weight) >= 1,
        s.span(weight) >= 1,
{
    let cells = (s.in_ch * s.out_ch) as int;
    assert(cells > 0) by (nonlinear_arith)
        requires
            cells == s.in_ch * s.out_ch,
            s.in_ch > 0,
            s.out_ch > 0,
    ;
    vstd::arithmetic::div_mod::lemma_div_is_ordered(cells, weight as int, cells);
    vstd::arithmetic::div_mod::lemma_div_by_self(cells);
    let taps = s.taps(weight) as int;
    assert((taps - 1) * s.dilation >= 0) by (nonlinear_arith)
        requires
            taps >= 1,
            s.dilation >= 0,
    ;
}

} // verus!
