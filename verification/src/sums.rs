//! What the arithmetic on vectors comes to, value by value.
use crate::attention::{all_turned, are_shares};
use crate::backend::{is_heads_norm, is_norm};
use crate::conv::{
    is_biased_linear, is_layer_norm, is_mapped, layer_norm_does, linear_frames_does,
    scale_frames_does, snake_does, sum_does,
};
use crate::error::ErrorView;
use crate::numeric::{gathered, is_linear, pairs, row, sums_along, Calc, Op};
use crate::slow_layer::is_zipped;
use vstd::prelude::*;

verus! {

/// Whether values are the running sums of the products of two lists, from a start on.
pub open spec fn are_running_sums<T: Copy, F: Fn(Op, T, T, T) -> T>(
    sums: Seq<T>,
    start: T,
    a: Seq<T>,
    b: Seq<T>,
    calc: Calc<T, F>,
) -> bool {
    &&& sums.len() == a.len() + 1
    &&& sums[0] == start
    &&& forall|k: int|
        0 <= k < a.len() ==> calc.gives(Op::MulAdd, #[trigger] sums[k], a[k], b[k], sums[k + 1])
}

/// Whether a value is a start with the products of two lists added, one after another.
pub open spec fn adds_up<T: Copy, F: Fn(Op, T, T, T) -> T>(
    start: T,
    a: Seq<T>,
    b: Seq<T>,
    calc: Calc<T, F>,
    r: T,
) -> bool {
    exists|sums: Seq<T>| #[trigger] are_running_sums(sums, start, a, b, calc) && sums.last() == r
}

/// The values of a list from a place on.
pub open spec fn part<T>(list: Seq<T>, at: int, count: int) -> Seq<T> {
    Seq::new(count as nat, |k: int| list[at + k])
}

/// A sum over pairs is a start with the products of the pairs added, one after another.
pub proof fn sums_add_products<T: Copy, F: Fn(Op, T, T, T) -> T>(
    terms: Seq<(T, T)>,
    start: T,
    calc: Calc<T, F>,
    a: Seq<T>,
    b: Seq<T>,
    r: T,
)
    requires
        gathered(terms, start, calc, r),
        a.len() == terms.len(),
        forall|k: int| 0 <= k < terms.len() ==> #[trigger] terms[k] == (a[k], b[k]),
    ensures
        adds_up(start, a, b, calc, r),
{
    let sums = choose|sums: Seq<T>|
        #[trigger] sums_along(sums, terms, start, calc) && sums.last() == r;
    assert forall|k: int| 0 <= k < a.len() implies calc.gives(
        Op::MulAdd,
        #[trigger] sums[k],
        a[k],
        b[k],
        sums[k + 1],
    ) by {
        assert(terms[k] == (a[k], b[k]));
    }
    assert(are_running_sums(sums, start, a, b, calc));
}

/// Row `i` of a table with rows of a width starts where `i` rows end.
pub proof fn rows_lie_behind_each_other<T>(table: Seq<T>, i: int, width: int)
    requires
        0 <= i,
        0 <= width,
        i * width + width <= table.len(),
    ensures
        row(table, i, width) == part(table, i * width, width),
{
    crate::arith::lemma_next_row(i, width);
    crate::arith::lemma_rows_monotone(0, i, width);
    assert(row(table, i, width) =~= part(table, i * width, width));
}

/// Output `o` of a vector times a table: from zero on, each value of the vector times the value
/// below it in row `o`.
pub proof fn outputs_are_row_products<T: Copy, F: Fn(Op, T, T, T) -> T>(
    input: Seq<T>,
    table: Seq<T>,
    calc: Calc<T, F>,
    out: Seq<T>,
    o: int,
)
    requires
        is_linear(input, table, calc, out),
        0 <= o < out.len(),
        o * input.len() + input.len() <= table.len(),
    ensures
        adds_up(
            calc.zero,
            input,
            part(table, o * input.len(), input.len() as int),
            calc,
            out[o],
        ),
{
    let w = input.len() as int;
    rows_lie_behind_each_other(table, o, w);
    let line = row(table, o, w);
    sums_add_products(pairs(input, line), calc.zero, calc, input, line, out[o]);
}

/// Whether `out` is a vector whose values are all multiplied by one factor, which comes from the sum
/// of the squares, and each by its own weight.
pub open spec fn is_evened_out<T: Copy, F: Fn(Op, T, T, T) -> T>(
    input: Seq<T>,
    weight: Seq<T>,
    eps: u32,
    calc: Calc<T, F>,
    out: Seq<T>,
    squares: T,
    factor: T,
) -> bool {
    &&& adds_up(calc.zero, input, input, calc, squares)
    &&& calc.gives(
        Op::NormScale(input.len() as usize, eps),
        squares,
        calc.zero,
        calc.zero,
        factor,
    )
    &&& forall|i: int|
        0 <= i < input.len() ==> calc.gives(
            Op::Weigh,
            input[i],
            factor,
            weight[i],
            #[trigger] out[i],
        )
}

/// A norm multiplies every value by the same factor, which comes from the sum of squares, and by the
/// weight of its place.
pub proof fn norms_share_a_factor<T: Copy, F: Fn(Op, T, T, T) -> T>(
    input: Seq<T>,
    weight: Seq<T>,
    eps: u32,
    calc: Calc<T, F>,
    out: Seq<T>,
)
    requires
        is_norm(input, weight, eps, calc, out),
    ensures
        out.len() == input.len(),
        exists|squares: T, factor: T|
            #[trigger] is_evened_out(input, weight, eps, calc, out, squares, factor),
{
    let (total, scale) = choose|total: T, scale: T|
        {
            &&& #[trigger] gathered(pairs(input, input), calc.zero, calc, total)
            &&& #[trigger] calc.gives(
                Op::NormScale(input.len() as usize, eps),
                total,
                calc.zero,
                calc.zero,
                scale,
            )
            &&& forall|i: int|
                0 <= i < input.len() ==> calc.gives(
                    Op::Weigh,
                    input[i],
                    scale,
                    weight[i],
                    #[trigger] out[i],
                )
        };
    sums_add_products(pairs(input, input), calc.zero, calc, input, input, total);
    assert(is_evened_out(input, weight, eps, calc, out, total, scale));
}

/// Each head is normed by its own sum of squares, with the weights that all heads share.
pub proof fn heads_are_normed_apart<T: Copy, F: Fn(Op, T, T, T) -> T>(
    input: Seq<T>,
    weight: Seq<T>,
    head_dim: int,
    eps: u32,
    calc: Calc<T, F>,
    out: Seq<T>,
    h: int,
)
    requires
        is_heads_norm(input, weight, head_dim, eps, calc, out),
        0 < head_dim,
        0 <= h,
        h * head_dim + head_dim <= input.len(),
    ensures
        out.len() == input.len(),
        exists|squares: T, factor: T|
            #[trigger] is_evened_out(
                part(input, h * head_dim, head_dim),
                weight,
                eps,
                calc,
                part(out, h * head_dim, head_dim),
                squares,
                factor,
            ),
{
    rows_lie_behind_each_other(input, h, head_dim);
    rows_lie_behind_each_other(out, h, head_dim);
    crate::arith::lemma_next_row(h, head_dim);
    assert(h < input.len() as int / head_dim) by {
        vstd::arithmetic::div_mod::lemma_div_is_ordered(
            (h + 1) * head_dim,
            input.len() as int,
            head_dim,
        );
        vstd::arithmetic::div_mod::lemma_div_by_multiple(h + 1, head_dim);
    }
    norms_share_a_factor(row(input, h, head_dim), weight, eps, calc, row(out, h, head_dim));
}

/// Whether two values are those of a point that was turned: with its cosine and sine, the first
/// becomes first times cosine less second times sine, and the second first times sine plus second
/// times cosine.
pub open spec fn is_rotated<T: Copy, F: Fn(Op, T, T, T) -> T>(
    x: T,
    y: T,
    cos: T,
    sin: T,
    calc: Calc<T, F>,
    p: (T, T, T, T),
    first: T,
    second: T,
) -> bool {
    &&& calc.gives(Op::Times, x, cos, calc.zero, p.0)
    &&& calc.gives(Op::Times, y, sin, calc.zero, p.1)
    &&& calc.gives(Op::Minus, p.0, p.1, calc.zero, first)
    &&& calc.gives(Op::Times, x, sin, calc.zero, p.2)
    &&& calc.gives(Op::Times, y, cos, calc.zero, p.3)
    &&& calc.gives(Op::Plus, p.2, p.3, calc.zero, second)
}

/// Whether cosine and sine are those of the angle that a position has at a place of a head.
pub open spec fn is_angle<T: Copy, F: Fn(Op, T, T, T) -> T>(
    position: usize,
    place: int,
    head_dim: usize,
    base: u32,
    calc: Calc<T, F>,
    cos: T,
    sin: T,
) -> bool {
    let z = calc.zero;
    &&& calc.gives(Op::Cos(position, place as usize, head_dim, base), z, z, z, cos)
    &&& calc.gives(Op::Sin(position, place as usize, head_dim, base), z, z, z, sin)
}

/// Turning by a position takes the values of a head two by two; each two are turned by the angle
/// that the position has at their place of the head.
pub proof fn values_are_turned_in_twos<T: Copy, F: Fn(Op, T, T, T) -> T>(
    before: Seq<T>,
    after: Seq<T>,
    head_dim: usize,
    position: usize,
    base: u32,
    calc: Calc<T, F>,
    head: int,
    place: int,
)
    requires
        all_turned(before, after, head_dim, position, base, calc),
        head_dim % 2 == 0,
        0 <= head,
        0 <= place < head_dim,
        place % 2 == 0,
        head * head_dim + head_dim <= before.len(),
    ensures
        after.len() == before.len(),
        exists|cos: T, sin: T, p: (T, T, T, T)|
            #![trigger is_rotated(
                before[head * head_dim + place],
                before[head * head_dim + place + 1],
                cos,
                sin,
                calc,
                p,
                after[head * head_dim + place],
                after[head * head_dim + place + 1],
            )]
            is_angle(position, place, head_dim, base, calc, cos, sin) && is_rotated(
                before[head * head_dim + place],
                before[head * head_dim + place + 1],
                cos,
                sin,
                calc,
                p,
                after[head * head_dim + place],
                after[head * head_dim + place + 1],
            ),
{
    let d = head_dim as int;
    let k = head * d + place;
    let half = d / 2;
    assert(d == 2 * half);
    assert(head * d == 2 * (head * half)) by (nonlinear_arith)
        requires
            d == 2 * half,
    ;
    assert(0 <= head * d) by (nonlinear_arith)
        requires
            0 <= head,
            0 <= d,
    ;
    assert(k % 2 == 0);
    crate::arith::lemma_cell(head, head + 1, place, d);
    assert(crate::attention::is_turned(before, after, k, head_dim, position, base, calc));
    let (cos, sin) = choose|cos: T, sin: T|
        #![trigger crate::attention::is_turn(before[k], before[k + 1], cos, sin, calc, after[k], after[k + 1])]
        {
            &&& calc.gives(
                Op::Cos(position, place as usize, head_dim, base),
                calc.zero,
                calc.zero,
                calc.zero,
                cos,
            )
            &&& calc.gives(
                Op::Sin(position, place as usize, head_dim, base),
                calc.zero,
                calc.zero,
                calc.zero,
                sin,
            )
            &&& crate::attention::is_turn(
                before[k],
                before[k + 1],
                cos,
                sin,
                calc,
                after[k],
                after[k + 1],
            )
        };
    assert(is_angle(position, place, head_dim, base, calc, cos, sin));
    let (xc, ys, xs, yc) = choose|xc: T, ys: T, xs: T, yc: T|
        {
            &&& #[trigger] calc.gives(Op::Times, before[k], cos, calc.zero, xc)
            &&& #[trigger] calc.gives(Op::Times, before[k + 1], sin, calc.zero, ys)
            &&& calc.gives(Op::Minus, xc, ys, calc.zero, after[k])
            &&& #[trigger] calc.gives(Op::Times, before[k], sin, calc.zero, xs)
            &&& #[trigger] calc.gives(Op::Times, before[k + 1], cos, calc.zero, yc)
            &&& calc.gives(Op::Plus, xs, yc, calc.zero, after[k + 1])
        };
    assert(is_rotated(
        before[k],
        before[k + 1],
        cos,
        sin,
        calc,
        (xc, ys, xs, yc),
        after[k],
        after[k + 1],
    ));
}

/// Whether a value is what a chain of one operation ends with, which takes in the values of a list
/// from a start on.
pub open spec fn ends_chain<T: Copy, F: Fn(Op, T, T, T) -> T>(
    chain: Seq<T>,
    start: T,
    list: Seq<T>,
    o: Op,
    calc: Calc<T, F>,
    r: T,
) -> bool {
    &&& chain.len() == list.len() + 1
    &&& chain[0] == start
    &&& chain[list.len() as int] == r
    &&& forall|k: int|
        0 <= k < list.len() ==> calc.gives(
            o,
            #[trigger] chain[k],
            list[k],
            calc.zero,
            chain[k + 1],
        )
}

/// Whether shares come from values: each value is raised by its distance from the largest, and
/// divided by the sum of all that were raised.
pub open spec fn is_softmax<T: Copy, F: Fn(Op, T, T, T) -> T>(
    values: Seq<T>,
    calc: Calc<T, F>,
    shares: Seq<T>,
    lowest: T,
    maxes: Seq<T>,
    largest: T,
    raised: Seq<T>,
    totals: Seq<T>,
    total: T,
) -> bool {
    let z = calc.zero;
    &&& shares.len() == values.len()
    &&& raised.len() == values.len()
    &&& calc.gives(Op::Single(0xff80_0000), z, z, z, lowest)
    &&& ends_chain(maxes, lowest, values, Op::Larger, calc, largest)
    &&& forall|i: int|
        0 <= i < values.len() ==> calc.gives(Op::Raise, values[i], largest, z, #[trigger] raised[i])
    &&& ends_chain(totals, z, raised, Op::Plus, calc, total)
    &&& forall|i: int|
        0 <= i < values.len() ==> calc.gives(Op::Over, raised[i], total, z, #[trigger] shares[i])
}

/// Shares are those of the exponentials of the values in the sum of all of them, taken at their
/// distance from the largest.
pub proof fn shares_are_of_exponentials<T: Copy, F: Fn(Op, T, T, T) -> T>(
    values: Seq<T>,
    calc: Calc<T, F>,
    shares: Seq<T>,
)
    requires
        are_shares(values, calc, shares),
    ensures
        exists|
            lowest: T,
            maxes: Seq<T>,
            largest: T,
            raised: Seq<T>,
            totals: Seq<T>,
            total: T,
        |
            #[trigger] is_softmax(
                values,
                calc,
                shares,
                lowest,
                maxes,
                largest,
                raised,
                totals,
                total,
            ),
{
    let (lowest, maxes, raised, totals) = choose|
        lowest: T,
        maxes: Seq<T>,
        raised: Seq<T>,
        totals: Seq<T>,
    |
        {
            &&& calc.gives(
                Op::Single(0xff80_0000),
                calc.zero,
                calc.zero,
                calc.zero,
                lowest,
            )
            &&& #[trigger] crate::attention::folded(maxes, values, lowest, Op::Larger, calc)
            &&& maxes.len() == values.len() + 1
            &&& raised.len() == values.len()
            &&& forall|i: int|
                0 <= i < values.len() ==> calc.gives(
                    Op::Raise,
                    values[i],
                    maxes.last(),
                    calc.zero,
                    #[trigger] raised[i],
                )
            &&& #[trigger] crate::attention::folded(totals, raised, calc.zero, Op::Plus, calc)
            &&& totals.len() == values.len() + 1
            &&& forall|i: int|
                0 <= i < values.len() ==> calc.gives(
                    Op::Over,
                    raised[i],
                    totals.last(),
                    calc.zero,
                    #[trigger] shares[i],
                )
        };
    assert(ends_chain(maxes, lowest, values, Op::Larger, calc, maxes.last()));
    assert(ends_chain(totals, calc.zero, raised, Op::Plus, calc, totals.last()));
    assert(is_softmax(
        values,
        calc,
        shares,
        lowest,
        maxes,
        maxes.last(),
        raised,
        totals,
        totals.last(),
    ));
}

/// An operation on two lists works on the values that stand at the same place.
pub proof fn lists_meet_place_by_place<T: Copy, F: Fn(Op, T, T, T) -> T>(
    a: Seq<T>,
    b: Seq<T>,
    o: Op,
    calc: Calc<T, F>,
    out: Seq<T>,
    i: int,
)
    requires
        is_zipped(a, b, o, calc, out),
        0 <= i < a.len(),
    ensures
        out.len() == a.len(),
        calc.gives(o, a[i], b[i], calc.zero, out[i]),
{
    assert(out.len() == a.len());
    let _ = out[i];
}

/// An operation on a list works on each value by itself.
pub proof fn values_are_mapped_apart<T: Copy, F: Fn(Op, T, T, T) -> T>(
    input: Seq<T>,
    o: Op,
    calc: Calc<T, F>,
    out: Seq<T>,
    i: int,
)
    requires
        is_mapped(input, o, calc, out),
        0 <= i < input.len(),
    ensures
        out.len() == input.len(),
        calc.gives(o, input[i], calc.zero, calc.zero, out[i]),
{
    let _ = out[i];
}

/// The snake activation turns the value of a channel in a frame into its snake with the parameter of
/// the channel, and refuses a list with another number of parameters than channels.
pub proof fn snakes_follow_their_channel<T: Copy, F: Fn(Op, T, T, T) -> T>(
    input: Seq<T>,
    frames: nat,
    channels: nat,
    alpha: Seq<T>,
    calc: Calc<T, F>,
    r: Result<Seq<T>, ErrorView>,
    frame: int,
    channel: int,
)
    requires
        snake_does(input, frames, channels, alpha, calc, r),
        0 <= frame < frames,
        0 <= channel < channels,
    ensures
        input.len() != frames * channels || alpha.len() != channels ==> r is Err,
        input.len() == frames * channels <= usize::MAX && alpha.len() == channels ==> {
            let at = frame * channels + channel;
            &&& r is Ok
            &&& r->Ok_0.len() == input.len()
            &&& calc.gives(Op::Snake, input[at], alpha[channel], calc.zero, r->Ok_0[at])
        },
{
    crate::arith::lemma_cell(frame, frames as int, channel, channels as int);
    if input.len() == frames * channels <= usize::MAX && alpha.len() == channels {
        let at = frame * channels + channel;
        let out = r->Ok_0;
        assert(calc.gives(Op::Snake, input[at], alpha[at % (channels as int)], calc.zero, out[at]));
    }
}

/// Scaling frames multiplies the value of a channel in a frame by the factor of the channel.
pub proof fn factors_follow_their_channel<T: Copy, F: Fn(Op, T, T, T) -> T>(
    values: Seq<T>,
    channels: nat,
    scale: Seq<T>,
    calc: Calc<T, F>,
    out: Seq<T>,
    frame: int,
    channel: int,
)
    requires
        scale_frames_does(values, channels, scale, calc, Ok(out)),
        0 <= frame,
        0 <= channel < channels,
        frame * channels + channels <= values.len(),
    ensures
        scale.len() == channels,
        out.len() == values.len(),
        calc.gives(
            Op::Times,
            values[frame * channels + channel],
            scale[channel],
            calc.zero,
            out[frame * channels + channel],
        ),
{
    crate::arith::lemma_cell(frame, frame + 1, channel, channels as int);
    crate::arith::lemma_rows_monotone(0, frame, channels as int);
    let at = frame * channels + channel;
    assert(calc.gives(
        Op::Times,
        values[at],
        scale[at % (channels as int)],
        calc.zero,
        out[at],
    ));
}

/// Adding what was made of values to the values adds place by place.
pub proof fn residuals_are_added<T: Copy, F: Fn(Op, T, T, T) -> T>(
    what: Seq<char>,
    residual: Seq<T>,
    delta: Seq<T>,
    calc: Calc<T, F>,
    out: Seq<T>,
    i: int,
)
    requires
        sum_does(what, residual, delta, calc, Ok(out)),
        0 <= i < residual.len(),
    ensures
        delta.len() == residual.len(),
        out.len() == residual.len(),
        calc.gives(Op::Plus, residual[i], delta[i], calc.zero, out[i]),
{
    let _ = out[i];
}

/// A table with a bias: output `o` of a frame is the bias of `o`, added to the products of the frame
/// with row `o`.
pub proof fn biased_outputs_are_row_products<T: Copy, F: Fn(Op, T, T, T) -> T>(
    frame: Seq<T>,
    weight: Seq<T>,
    bias: Seq<T>,
    calc: Calc<T, F>,
    out: Seq<T>,
    o: int,
)
    requires
        is_biased_linear(frame, weight, bias, calc, out),
        0 <= o < bias.len(),
        o * frame.len() + frame.len() <= weight.len(),
    ensures
        out.len() == bias.len(),
        exists|plain: T|
            adds_up(
                calc.zero,
                frame,
                part(weight, o * frame.len(), frame.len() as int),
                calc,
                plain,
            ) && #[trigger] calc.gives(Op::Plus, plain, bias[o], calc.zero, out[o]),
{
    let plain = choose|plain: Seq<T>|
        plain.len() == bias.len() && #[trigger] is_linear(frame, weight, calc, plain) && is_zipped(
            plain,
            bias,
            Op::Plus,
            calc,
            out,
        );
    outputs_are_row_products(frame, weight, calc, plain, o);
    assert(calc.gives(Op::Plus, plain[o], bias[o], calc.zero, out[o]));
}

/// A table over frames works on each frame by itself.
pub proof fn frames_pass_tables_apart<T: Copy, F: Fn(Op, T, T, T) -> T>(
    input: Seq<T>,
    frames: nat,
    input_dim: usize,
    output_dim: usize,
    weight: Seq<T>,
    bias: Seq<T>,
    calc: Calc<T, F>,
    out: Seq<T>,
    f: int,
    o: int,
)
    requires
        linear_frames_does(input, frames, input_dim, output_dim, weight, bias, calc, Ok(out)),
        0 <= f < frames,
        0 <= o < output_dim,
    ensures
        out.len() == frames * output_dim,
        exists|plain: T|
            adds_up(
                calc.zero,
                part(input, f * input_dim, input_dim as int),
                part(weight, o * input_dim, input_dim as int),
                calc,
                plain,
            ) && #[trigger] calc.gives(
                Op::Plus,
                plain,
                bias[o],
                calc.zero,
                out[f * output_dim + o],
            ),
{
    let (n, m) = (input_dim as int, output_dim as int);
    crate::arith::lemma_rows_monotone(f + 1, frames as int, n);
    crate::arith::lemma_next_row(f, n);
    crate::arith::lemma_rows_monotone(f + 1, frames as int, m);
    crate::arith::lemma_next_row(f, m);
    crate::arith::lemma_rows_monotone(o + 1, m, n);
    crate::arith::lemma_next_row(o, n);
    vstd::arithmetic::mul::lemma_mul_is_commutative(n, m);
    rows_lie_behind_each_other(input, f, n);
    rows_lie_behind_each_other(out, f, m);
    biased_outputs_are_row_products(row(input, f, n), weight, bias, calc, row(out, f, m), o);
}

/// Whether `out` is a frame less its mean, multiplied by one factor, which comes from the squares of
/// what is left, and each value by its own weight, with its own bias added.
pub open spec fn is_centered<T: Copy, F: Fn(Op, T, T, T) -> T>(
    frame: Seq<T>,
    weight: Seq<T>,
    bias: Seq<T>,
    eps: u32,
    calc: Calc<T, F>,
    out: Seq<T>,
    totals: Seq<T>,
    total: T,
    mean: T,
    rest: Seq<T>,
    squares: T,
    factor: T,
    weighted: Seq<T>,
) -> bool {
    let n = frame.len() as usize;
    let z = calc.zero;
    &&& ends_chain(totals, z, frame, Op::Plus, calc, total)
    &&& calc.gives(Op::OverCount(n), total, z, z, mean)
    &&& rest.len() == frame.len()
    &&& weighted.len() == frame.len()
    &&& out.len() == frame.len()
    &&& adds_up(z, rest, rest, calc, squares)
    &&& calc.gives(Op::NormScale(n, eps), squares, z, z, factor)
    &&& forall|i: int|
        0 <= i < frame.len() ==> {
            &&& calc.gives(Op::Minus, frame[i], mean, z, #[trigger] rest[i])
            &&& calc.gives(Op::Weigh, rest[i], factor, weight[i], weighted[i])
            &&& calc.gives(Op::Plus, weighted[i], bias[i], z, out[i])
        }
}

/// Norming frames with a mean works on each frame by itself.
pub proof fn frames_are_centered_apart<T: Copy, F: Fn(Op, T, T, T) -> T>(
    values: Seq<T>,
    frames: nat,
    channels: nat,
    weight: Seq<T>,
    bias: Seq<T>,
    eps: u32,
    calc: Calc<T, F>,
    out: Seq<T>,
    f: int,
)
    requires
        layer_norm_does(values, frames, channels, weight, bias, eps, calc, Ok(out)),
        0 <= f < frames,
    ensures
        out.len() == values.len(),
        exists|
            totals: Seq<T>,
            total: T,
            mean: T,
            rest: Seq<T>,
            squares: T,
            factor: T,
            weighted: Seq<T>,
        |
            #[trigger] is_centered(
                part(values, f * channels, channels as int),
                weight,
                bias,
                eps,
                calc,
                part(out, f * channels, channels as int),
                totals,
                total,
                mean,
                rest,
                squares,
                factor,
                weighted,
            ),
{
    let w = channels as int;
    crate::arith::lemma_rows_monotone(f + 1, frames as int, w);
    crate::arith::lemma_next_row(f, w);
    rows_lie_behind_each_other(values, f, w);
    rows_lie_behind_each_other(out, f, w);
    let frame = row(values, f, w);
    let made = row(out, f, w);
    let n = frame.len() as usize;
    let z = calc.zero;
    assert(is_layer_norm(frame, weight, bias, eps, calc, made));
    let (total, mean, centered, spread, scale, weighted) = choose|
        total: Seq<T>,
        mean: T,
        centered: Seq<T>,
        spread: T,
        scale: T,
        weighted: Seq<T>,
    |
        {
            &&& #[trigger] crate::attention::folded(total, frame, z, Op::Plus, calc)
            &&& total.len() == frame.len() + 1
            &&& #[trigger] calc.gives(Op::OverCount(n), total.last(), z, z, mean)
            &&& centered.len() == frame.len()
            &&& forall|i: int|
                0 <= i < frame.len() ==> calc.gives(
                    Op::Minus,
                    frame[i],
                    mean,
                    z,
                    #[trigger] centered[i],
                )
            &&& #[trigger] gathered(pairs(centered, centered), z, calc, spread)
            &&& #[trigger] calc.gives(Op::NormScale(n, eps), spread, z, z, scale)
            &&& weighted.len() == frame.len()
            &&& forall|i: int|
                0 <= i < frame.len() ==> calc.gives(
                    Op::Weigh,
                    centered[i],
                    scale,
                    weight[i],
                    #[trigger] weighted[i],
                )
            &&& #[trigger] is_zipped(weighted, bias, Op::Plus, calc, made)
        };
    sums_add_products(pairs(centered, centered), z, calc, centered, centered, spread);
    assert(ends_chain(total, z, frame, Op::Plus, calc, total.last()));
    assert forall|i: int| 0 <= i < frame.len() implies {
        &&& calc.gives(Op::Minus, frame[i], mean, z, #[trigger] centered[i])
        &&& calc.gives(Op::Weigh, centered[i], scale, weight[i], weighted[i])
        &&& calc.gives(Op::Plus, weighted[i], bias[i], z, made[i])
    } by {
        let _ = weighted[i];
        let _ = made[i];
    }
    assert(is_centered(
        frame,
        weight,
        bias,
        eps,
        calc,
        made,
        total,
        total.last(),
        mean,
        centered,
        spread,
        scale,
        weighted,
    ));
}

/// Lists of one width, put one behind the other, keep their order: list `i` starts where `i` lists end.
pub proof fn lists_lie_behind_each_other<T>(lists: Seq<Seq<T>>, width: int, i: int)
    requires
        0 <= width,
        0 <= i < lists.len(),
        forall|k: int| 0 <= k < lists.len() ==> (#[trigger] lists[k]).len() == width,
    ensures
        crate::fast_ar::flat(lists).len() == lists.len() * width,
        i * width + width <= lists.len() * width,
        part(crate::fast_ar::flat(lists), i * width, width) == lists[i],
    decreases lists.len(),
{
    let n = lists.len() as int;
    let before = lists.drop_last();
    lemma_flat_size(before, width);
    crate::arith::lemma_next_row(n - 1, width);
    crate::arith::lemma_rows_monotone(i + 1, n, width);
    crate::arith::lemma_next_row(i, width);
    crate::arith::lemma_rows_monotone(0, i, width);
    let all = crate::fast_ar::flat(lists);
    if i < n - 1 {
        lists_lie_behind_each_other(before, width, i);
        assert(part(all, i * width, width) =~= part(
            crate::fast_ar::flat(before),
            i * width,
            width,
        ));
        assert(before[i] == lists[i]);
    } else {
        assert(part(all, i * width, width) =~= lists[i]);
    }
}

proof fn lemma_flat_size<T>(lists: Seq<Seq<T>>, width: int)
    requires
        0 <= width,
        forall|k: int| 0 <= k < lists.len() ==> (#[trigger] lists[k]).len() == width,
    ensures
        crate::fast_ar::flat(lists).len() == lists.len() * width,
    decreases lists.len(),
{
    if lists.len() > 0 {
        lemma_flat_size(lists.drop_last(), width);
        crate::arith::lemma_next_row(lists.len() - 1, width);
    } else {
        assert(0 * width == 0) by (nonlinear_arith);
    }
}

} // verus!
