//! What quantizing frames comes to, value by value.
use crate::codec_weights::CodecQuantizerValues;
use crate::numeric::{gathered, pairs, row, Calc, Op};
use crate::rvq::{are_quotients, betters, is_code_score, is_length};
use crate::rvq_codes::{frame_codes, is_size, CodecValues};
use crate::sums::{adds_up, biased_outputs_are_row_products, part, sums_add_products};
use vstd::prelude::*;

verus! {

/// Whether a quantizer has the sizes that the codec gives it, for so many codes: codes of 8 values,
/// and frames of 1024.
pub open spec fn is_shaped<T>(q: CodecQuantizerValues<T>, size: int) -> bool {
    &&& q.codebook_weight@.len() == 8 * size
    &&& q.in_proj_weight@.len() == 8 * 1024
    &&& q.in_proj_bias@.len() == 8
    &&& q.out_proj_weight@.len() == 8 * 1024
    &&& q.out_proj_bias@.len() == 1024
}

/// The codebook of number `c`: the semantic one is the first.
pub open spec fn book<T>(w: CodecValues<T>, c: int) -> CodecQuantizerValues<T> {
    if c == 0 {
        w.semantic_quantizer
    } else {
        w.residual_quantizers@[c - 1]
    }
}

/// How many codes codebook number `c` has.
pub open spec fn book_size(c: int) -> int {
    if c == 0 {
        4096
    } else {
        1024
    }
}

/// Whether all codebooks have the sizes that the codec gives them.
pub open spec fn are_shaped<T>(w: CodecValues<T>) -> bool {
    forall|c: int|
        0 <= c <= w.residual_quantizers@.len() ==> is_shaped(#[trigger] book(w, c), book_size(c))
}

/// Whether a value is the one at place `i` of the frame that a code stands for: the products of the
/// code's 8 values with row `i` of the table, and the bias.
pub open spec fn stands_for<T: Copy, F: Fn(Op, T, T, T) -> T>(
    q: CodecQuantizerValues<T>,
    code: int,
    i: int,
    calc: Calc<T, F>,
    v: T,
) -> bool {
    exists|plain: T|
        adds_up(
            calc.zero,
            part(q.codebook_weight@, 8 * code, 8),
            part(q.out_proj_weight@, 8 * i, 8),
            calc,
            plain,
        ) && #[trigger] calc.gives(Op::Plus, plain, q.out_proj_bias@[i], calc.zero, v)
}

/// A code stands for its own 8 values out of the codebook, taken through the table.
pub proof fn codes_stand_for_their_row<T: Copy, F: Fn(Op, T, T, T) -> T>(
    q: CodecQuantizerValues<T>,
    size: int,
    code: u32,
    calc: Calc<T, F>,
    out: Seq<T>,
    i: int,
)
    requires
        q.is_projected(code, calc, out),
        is_shaped(q, size),
        code < size,
        0 <= i < 1024,
    ensures
        out.len() == 1024,
        stands_for(q, code as int, i, calc, out[i]),
{
    let line = row(q.codebook_weight@, code as int, 8);
    assert(line =~= part(q.codebook_weight@, 8 * code, 8));
    biased_outputs_are_row_products(
        line,
        q.out_proj_weight@,
        q.out_proj_bias@,
        calc,
        out,
        i,
    );
}

/// Whether values are what the codes of a frame stand for at place `i`, and their sums from zero on.
/// The code of codebook `c` for the frame stands behind all codes of the codebooks before it.
pub open spec fn are_code_sums<T: Copy, F: Fn(Op, T, T, T) -> T>(
    w: CodecValues<T>,
    codes: Seq<i32>,
    n_frames: int,
    frame: int,
    i: int,
    calc: Calc<T, F>,
    values: Seq<T>,
    sums: Seq<T>,
) -> bool {
    &&& values.len() == w.residual_quantizers@.len() + 1
    &&& sums.len() == values.len() + 1
    &&& sums[0] == calc.zero
    &&& forall|c: int|
        0 <= c < values.len() ==> stands_for(
            book(w, c),
            codes[c * n_frames + frame] as int,
            i,
            calc,
            #[trigger] values[c],
        ) && calc.gives(Op::Plus, sums[c], values[c], calc.zero, sums[c + 1])
}

/// A frame is the sum of what its codes stand for in all codebooks.
pub proof fn frames_add_up_their_codes<T: Copy, F: Fn(Op, T, T, T) -> T>(
    w: CodecValues<T>,
    codes: Seq<i32>,
    n_frames: nat,
    frame: int,
    calc: Calc<T, F>,
    out: Seq<T>,
    i: int,
)
    requires
        w.is_frame_of(codes, n_frames, frame, calc, out),
        are_shaped(w),
        forall|c: int|
            0 <= c <= w.residual_quantizers@.len() ==> 0 <= codes[c * n_frames + frame]
                < #[trigger] book_size(c),
        0 <= i < 1024,
    ensures
        exists|values: Seq<T>, sums: Seq<T>|
            #[trigger] are_code_sums(
                w,
                codes,
                n_frames as int,
                frame,
                i,
                calc,
                values,
                sums,
            ) && sums.last() == out[i],
{
    let all = choose|all: Seq<Seq<T>>|
        #[trigger] w.are_sums(codes, n_frames, frame, calc, all) && all.len() == w.count() + 1
            && all.last() == out;
    let n = w.residual_quantizers@.len() + 1;
    let parts = Seq::new(n, |c: int| code_part(w, codes[c * n_frames + frame], c, calc, all, i));
    let sums = Seq::new(n + 1, |c: int| all[c][i]);
    assert forall|c: int| 0 <= c < n implies stands_for(
        book(w, c),
        codes[c * n_frames + frame] as int,
        i,
        calc,
        #[trigger] parts[c],
    ) && calc.gives(Op::Plus, sums[c], parts[c], calc.zero, sums[c + 1]) && all[c].len() == 1024 by {
        lemma_sum_lengths(w, codes, n_frames, frame, calc, all, c);
        assert(0 < book_size(c));
        lemma_code_part(w, codes, n_frames, frame, calc, all, i, c);
    }
    assert(are_code_sums(w, codes, n_frames as int, frame, i, calc, parts, sums));
}

/// The value at place `i` that was added for the code of codebook `c`.
spec fn code_part<T: Copy, F: Fn(Op, T, T, T) -> T>(
    w: CodecValues<T>,
    code: i32,
    c: int,
    calc: Calc<T, F>,
    all: Seq<Seq<T>>,
    i: int,
) -> T {
    (choose|part: Seq<T>|
        #[trigger] w.quantizer(c).is_projected(code as u32, calc, part)
            && crate::slow_layer::is_zipped(all[c], part, Op::Plus, calc, all[c + 1]))[i]
}

proof fn lemma_sum_lengths<T: Copy, F: Fn(Op, T, T, T) -> T>(
    w: CodecValues<T>,
    codes: Seq<i32>,
    n_frames: nat,
    frame: int,
    calc: Calc<T, F>,
    all: Seq<Seq<T>>,
    c: int,
)
    requires
        w.are_sums(codes, n_frames, frame, calc, all),
        0 <= c < all.len(),
    ensures
        all[c].len() == 1024,
    decreases c,
{
    if c > 0 {
        lemma_sum_lengths(w, codes, n_frames, frame, calc, all, c - 1);
        let _ = all[c - 1 + 1];
    }
}

proof fn lemma_code_part<T: Copy, F: Fn(Op, T, T, T) -> T>(
    w: CodecValues<T>,
    codes: Seq<i32>,
    n_frames: nat,
    frame: int,
    calc: Calc<T, F>,
    all: Seq<Seq<T>>,
    i: int,
    c: int,
)
    requires
        w.are_sums(codes, n_frames, frame, calc, all),
        0 <= c < all.len() - 1,
        c <= w.residual_quantizers@.len(),
        are_shaped(w),
        0 <= codes[c * n_frames + frame] < book_size(c),
        0 <= i < 1024,
        all[c].len() == 1024,
    ensures
        stands_for(
            book(w, c),
            codes[c * n_frames + frame] as int,
            i,
            calc,
            code_part(w, codes[c * n_frames + frame], c, calc, all, i),
        ),
        calc.gives(
            Op::Plus,
            all[c][i],
            code_part(w, codes[c * n_frames + frame], c, calc, all, i),
            calc.zero,
            all[c + 1][i],
        ),
{
    let code = codes[c * n_frames + frame];
    let _ = all[c + 1];
    assert(w.code_adds(code, c, calc, all[c], all[c + 1]));
    let part = choose|part: Seq<T>|
        #[trigger] w.quantizer(c).is_projected(code as u32, calc, part)
            && crate::slow_layer::is_zipped(all[c], part, Op::Plus, calc, all[c + 1]);
    assert(is_shaped(book(w, c), book_size(c)));
    codes_stand_for_their_row(book(w, c), book_size(c), code as u32, calc, part, i);
    let _ = all[c + 1][i];
}

/// The codes of a frame stand one row of codes apart.
pub proof fn codes_stand_codebook_by_codebook(
    codes: Seq<i32>,
    n_frames: nat,
    frame: int,
    count: nat,
    c: int,
)
    requires
        0 <= c < count,
    ensures
        frame_codes(codes, n_frames, frame, count).len() == count,
        frame_codes(codes, n_frames, frame, count)[c] == codes[c * n_frames + frame],
{
}

// ---------------------------------------------------------------------
// From frames to codes
// ---------------------------------------------------------------------

/// Whether a value has what a code stands for at place `i` taken from it.
pub open spec fn is_taken_from<T: Copy, F: Fn(Op, T, T, T) -> T>(
    q: CodecQuantizerValues<T>,
    code: int,
    i: int,
    calc: Calc<T, F>,
    before: T,
    after: T,
) -> bool {
    exists|v: T|
        stands_for(q, code, i, calc, v) && #[trigger] calc.gives(
            Op::Minus,
            before,
            v,
            calc.zero,
            after,
        )
}

/// Whether a code is nearest to a frame, and the frame less what the code stands for is left.
#[verifier::opaque]
pub open spec fn leaves<T: Copy, F: Fn(Op, T, T, T) -> T, G: Fn(T, T) -> bool>(
    q: CodecQuantizerValues<T>,
    size: int,
    code: i32,
    calc: Calc<T, F>,
    exceeds: G,
    before: Seq<T>,
    after: Seq<T>,
) -> bool {
    &&& 0 <= code < size
    &&& q.is_nearest(before, size as usize, calc, exceeds, code as u32)
    &&& after.len() == 1024
    &&& forall|i: int|
        0 <= i < 1024 ==> is_taken_from(
            q,
            code as int,
            i,
            calc,
            before[i],
            #[trigger] after[i],
        )
}

/// Whether these are what is left of a frame after each of its codes.
pub open spec fn are_left<T: Copy, F: Fn(Op, T, T, T) -> T, G: Fn(T, T) -> bool>(
    w: CodecValues<T>,
    codes: Seq<i32>,
    calc: Calc<T, F>,
    exceeds: G,
    rests: Seq<Seq<T>>,
) -> bool {
    &&& rests.len() == codes.len() + 1
    &&& forall|c: int|
        0 <= c < codes.len() ==> leaves(
            book(w, c),
            book_size(c),
            #[trigger] codes[c],
            calc,
            exceeds,
            rests[c],
            rests[c + 1],
        )
}

/// A value is the root of the squares of a list.
pub open spec fn is_root_of_squares<T: Copy, F: Fn(Op, T, T, T) -> T>(
    values: Seq<T>,
    root: Op,
    calc: Calc<T, F>,
    r: T,
) -> bool {
    exists|s: T|
        adds_up(calc.zero, values, values, calc, s) && #[trigger] calc.gives(
            root,
            s,
            calc.zero,
            calc.zero,
            r,
        )
}

/// The codes of a frame take it apart: each codebook takes the code that is nearest to what the
/// codebooks before it left, and leaves it less what the code stands for. What is left in the end is
/// measured by the root of its squares.
pub proof fn codes_take_frames_apart<T: Copy, F: Fn(Op, T, T, T) -> T, G: Fn(T, T) -> bool>(
    w: CodecValues<T>,
    codes: Seq<i32>,
    frame: Seq<T>,
    calc: Calc<T, F>,
    exceeds: G,
    left: T,
)
    requires
        w.are_codes_of(codes, frame, calc, exceeds, left),
        are_shaped(w),
        codes.len() == w.residual_quantizers@.len() + 1,
        frame.len() == 1024,
    ensures
        exists|rests: Seq<Seq<T>>|
            #[trigger] are_left(w, codes, calc, exceeds, rests) && rests[0] == frame
                && is_root_of_squares(rests.last(), Op::Root, calc, left),
{
    let rests = choose|rests: Seq<Seq<T>>|
        #[trigger] w.are_rests(codes, frame, calc, exceeds, rests) && is_size(
            rests.last(),
            calc,
            left,
        );
    assert forall|c: int| 0 <= c < codes.len() implies leaves(
        book(w, c),
        book_size(c),
        #[trigger] codes[c],
        calc,
        exceeds,
        rests[c],
        rests[c + 1],
    ) by {
        lemma_rest_lengths(w, codes, frame, calc, exceeds, rests, c);
        lemma_code_takes(w, codes[c], c, calc, exceeds, rests[c], rests[c + 1]);
    }
    sizes_are_of_squares(rests.last(), calc, left);
    assert(are_left(w, codes, calc, exceeds, rests));
}

/// The size of a list is the root of the sum of its squares.
pub proof fn sizes_are_of_squares<T: Copy, F: Fn(Op, T, T, T) -> T>(
    values: Seq<T>,
    calc: Calc<T, F>,
    size: T,
)
    requires
        is_size(values, calc, size),
    ensures
        is_root_of_squares(values, Op::Root, calc, size),
{
    let s = choose|s: T|
        #[trigger] gathered(pairs(values, values), calc.zero, calc, s) && calc.gives(
            Op::Root,
            s,
            calc.zero,
            calc.zero,
            size,
        );
    sums_add_products(pairs(values, values), calc.zero, calc, values, values, s);
}

proof fn lemma_rest_lengths<T: Copy, F: Fn(Op, T, T, T) -> T, G: Fn(T, T) -> bool>(
    w: CodecValues<T>,
    codes: Seq<i32>,
    frame: Seq<T>,
    calc: Calc<T, F>,
    exceeds: G,
    rests: Seq<Seq<T>>,
    c: int,
)
    requires
        w.are_rests(codes, frame, calc, exceeds, rests),
        frame.len() == 1024,
        0 <= c <= codes.len(),
    ensures
        rests[c].len() == 1024,
        c < codes.len() ==> w.code_takes(codes[c], c, calc, exceeds, rests[c], rests[c + 1]),
    decreases c,
{
    if c > 0 {
        lemma_rest_lengths(w, codes, frame, calc, exceeds, rests, c - 1);
        let _ = rests[c - 1 + 1];
    }
    let _ = rests[c + 1];
}

proof fn lemma_code_takes<T: Copy, F: Fn(Op, T, T, T) -> T, G: Fn(T, T) -> bool>(
    w: CodecValues<T>,
    code: i32,
    c: int,
    calc: Calc<T, F>,
    exceeds: G,
    before: Seq<T>,
    after: Seq<T>,
)
    requires
        w.code_takes(code, c, calc, exceeds, before, after),
        are_shaped(w),
        0 <= c <= w.residual_quantizers@.len(),
        before.len() == 1024,
    ensures
        leaves(book(w, c), book_size(c), code, calc, exceeds, before, after),
{
    reveal(leaves);
    let part = choose|part: Seq<T>|
        #[trigger] w.quantizer(c).is_projected(code as u32, calc, part)
            && crate::slow_layer::is_zipped(before, part, Op::Minus, calc, after);
    assert(is_shaped(book(w, c), book_size(c)));
    assert forall|i: int| 0 <= i < 1024 implies is_taken_from(
        book(w, c),
        code as int,
        i,
        calc,
        before[i],
        #[trigger] after[i],
    ) by {
        codes_stand_for_their_row(book(w, c), book_size(c), code as u32, calc, part, i);
        assert(calc.gives(Op::Minus, before[i], part[i], calc.zero, after[i]));
    }
}

// ---------------------------------------------------------------------
// The nearest code
// ---------------------------------------------------------------------

/// Whether the values of a list were divided by one value.
pub open spec fn are_divided<T: Copy, F: Fn(Op, T, T, T) -> T>(
    values: Seq<T>,
    by: T,
    calc: Calc<T, F>,
    out: Seq<T>,
) -> bool {
    &&& out.len() == values.len()
    &&& forall|k: int|
        0 <= k < values.len() ==> calc.gives(Op::Over, values[k], by, calc.zero, #[trigger] out[k])
}

/// Whether two lists are those of the direction of a frame and the direction of a code.
pub open spec fn are_directions<T: Copy, F: Fn(Op, T, T, T) -> T>(
    projected: Seq<T>,
    length: T,
    line: Seq<T>,
    calc: Calc<T, F>,
    other: T,
    a: Seq<T>,
    b: Seq<T>,
) -> bool {
    &&& is_root_of_squares(line, Op::Length, calc, other)
    &&& are_divided(projected, length, calc, a)
    &&& are_divided(line, other, calc, b)
}

/// The score of a code is the product of two directions: that of the frame, and that of the code.
pub proof fn scores_compare_directions<T: Copy, F: Fn(Op, T, T, T) -> T>(
    projected: Seq<T>,
    length: T,
    line: Seq<T>,
    calc: Calc<T, F>,
    score: T,
)
    requires
        is_code_score(projected, length, line, calc, score),
        projected.len() == line.len(),
    ensures
        exists|other: T, a: Seq<T>, b: Seq<T>|
            #[trigger] are_directions(projected, length, line, calc, other, a, b) && adds_up(
                calc.zero,
                a,
                b,
                calc,
                score,
            ),
{
    let (other, a, b) = choose|other: T, a: Seq<T>, b: Seq<T>|
        {
            &&& is_length(line, calc, other)
            &&& #[trigger] are_quotients(projected, length, calc, a)
            &&& #[trigger] are_quotients(line, other, calc, b)
            &&& gathered(pairs(a, b), calc.zero, calc, score)
        };
    lengths_are_of_squares(line, calc, other);
    sums_add_products(pairs(a, b), calc.zero, calc, a, b, score);
    assert(are_directions(projected, length, line, calc, other, a, b));
}

/// The length of a list is made of the sum of its squares.
pub proof fn lengths_are_of_squares<T: Copy, F: Fn(Op, T, T, T) -> T>(
    values: Seq<T>,
    calc: Calc<T, F>,
    length: T,
)
    requires
        is_length(values, calc, length),
    ensures
        is_root_of_squares(values, Op::Length, calc, length),
{
    let s = choose|s: T|
        #[trigger] gathered(pairs(values, values), calc.zero, calc, s) && calc.gives(
            Op::Length,
            s,
            calc.zero,
            calc.zero,
            length,
        );
    sums_add_products(pairs(values, values), calc.zero, calc, values, values, s);
}

/// Whether 8 values are those of a frame of 1024, taken through a table with a bias.
pub open spec fn is_lowered<T: Copy, F: Fn(Op, T, T, T) -> T>(
    q: CodecQuantizerValues<T>,
    frame: Seq<T>,
    calc: Calc<T, F>,
    o: int,
    v: T,
) -> bool {
    exists|plain: T|
        adds_up(calc.zero, frame, part(q.in_proj_weight@, o * 1024, 1024), calc, plain)
            && #[trigger] calc.gives(Op::Plus, plain, q.in_proj_bias@[o], calc.zero, v)
}

/// Whether a code was searched among the scores of all codes of a codebook.
#[verifier::opaque]
pub open spec fn is_searched<T: Copy, F: Fn(Op, T, T, T) -> T, G: Fn(T, T) -> bool>(
    q: CodecQuantizerValues<T>,
    frame: Seq<T>,
    size: int,
    calc: Calc<T, F>,
    exceeds: G,
    projected: Seq<T>,
    length: T,
    scores: Seq<T>,
    lowest: T,
    bests: Seq<(u32, T)>,
) -> bool {
    &&& projected.len() == 8
    &&& forall|o: int| 0 <= o < 8 ==> is_lowered(q, frame, calc, o, #[trigger] projected[o])
    &&& is_root_of_squares(projected, Op::Length, calc, length)
    &&& scores.len() == size
    &&& forall|i: int|
        0 <= i < size ==> is_code_score(
            projected,
            length,
            part(q.codebook_weight@, 8 * i, 8),
            calc,
            #[trigger] scores[i],
        )
    &&& calc.gives(Op::Single(0xff80_0000), calc.zero, calc.zero, calc.zero, lowest)
    &&& betters(bests, scores, lowest, exceeds)
}

/// The nearest code to a frame is searched among the scores of all codes, from minus infinity on,
/// after the frame was brought to the 8 values of a code.
pub proof fn nearest_codes_are_searched<T: Copy, F: Fn(Op, T, T, T) -> T, G: Fn(T, T) -> bool>(
    q: CodecQuantizerValues<T>,
    frame: Seq<T>,
    size: usize,
    calc: Calc<T, F>,
    exceeds: G,
    code: u32,
)
    requires
        q.is_nearest(frame, size, calc, exceeds, code),
        is_shaped(q, size as int),
        frame.len() == 1024,
    ensures
        exists|projected: Seq<T>, length: T, scores: Seq<T>, lowest: T, bests: Seq<(u32, T)>|
            #[trigger] is_searched(
                q,
                frame,
                size as int,
                calc,
                exceeds,
                projected,
                length,
                scores,
                lowest,
                bests,
            ) && bests.last().0 == code,
{
    let (projected, length, scores, lowest, bests) = choose|
        projected: Seq<T>,
        length: T,
        scores: Seq<T>,
        lowest: T,
        bests: Seq<(u32, T)>,
    |
        {
            &&& #[trigger] crate::conv::is_biased_linear(
                frame,
                q.in_proj_weight@,
                q.in_proj_bias@,
                calc,
                projected,
            )
            &&& #[trigger] is_length(projected, calc, length)
            &&& q.are_scores(projected, length, size, calc, scores)
            &&& calc.gives(Op::Single(0xff80_0000), calc.zero, calc.zero, calc.zero, lowest)
            &&& #[trigger] betters(bests, scores, lowest, exceeds)
            &&& bests.last().0 == code
        };
    lemma_searched(q, frame, size, calc, exceeds, projected, length, scores, lowest, bests);
}

proof fn lemma_searched<T: Copy, F: Fn(Op, T, T, T) -> T, G: Fn(T, T) -> bool>(
    q: CodecQuantizerValues<T>,
    frame: Seq<T>,
    size: usize,
    calc: Calc<T, F>,
    exceeds: G,
    projected: Seq<T>,
    length: T,
    scores: Seq<T>,
    lowest: T,
    bests: Seq<(u32, T)>,
)
    requires
        is_shaped(q, size as int),
        frame.len() == 1024,
        crate::conv::is_biased_linear(
            frame,
            q.in_proj_weight@,
            q.in_proj_bias@,
            calc,
            projected,
        ),
        is_length(projected, calc, length),
        q.are_scores(projected, length, size, calc, scores),
        calc.gives(Op::Single(0xff80_0000), calc.zero, calc.zero, calc.zero, lowest),
        betters(bests, scores, lowest, exceeds),
    ensures
        is_searched(
            q,
            frame,
            size as int,
            calc,
            exceeds,
            projected,
            length,
            scores,
            lowest,
            bests,
        ),
{
    reveal(is_searched);
    lemma_lowered(q, frame, calc, projected);
    lengths_are_of_squares(projected, calc, length);
    lemma_scores(q, projected, length, size, calc, scores);
}

proof fn lemma_lowered<T: Copy, F: Fn(Op, T, T, T) -> T>(
    q: CodecQuantizerValues<T>,
    frame: Seq<T>,
    calc: Calc<T, F>,
    projected: Seq<T>,
)
    requires
        q.in_proj_weight@.len() == 8 * 1024,
        q.in_proj_bias@.len() == 8,
        frame.len() == 1024,
        crate::conv::is_biased_linear(
            frame,
            q.in_proj_weight@,
            q.in_proj_bias@,
            calc,
            projected,
        ),
    ensures
        projected.len() == 8,
        forall|o: int| 0 <= o < 8 ==> is_lowered(q, frame, calc, o, #[trigger] projected[o]),
{
    biased_outputs_are_row_products(
        frame,
        q.in_proj_weight@,
        q.in_proj_bias@,
        calc,
        projected,
        0,
    );
    assert forall|o: int| 0 <= o < 8 implies is_lowered(
        q,
        frame,
        calc,
        o,
        #[trigger] projected[o],
    ) by {
        biased_outputs_are_row_products(
            frame,
            q.in_proj_weight@,
            q.in_proj_bias@,
            calc,
            projected,
            o,
        );
    }
}

proof fn lemma_scores<T: Copy, F: Fn(Op, T, T, T) -> T>(
    q: CodecQuantizerValues<T>,
    projected: Seq<T>,
    length: T,
    size: usize,
    calc: Calc<T, F>,
    scores: Seq<T>,
)
    requires
        q.codebook_weight@.len() == 8 * size,
        q.are_scores(projected, length, size, calc, scores),
    ensures
        scores.len() == size,
        forall|i: int|
            0 <= i < size ==> is_code_score(
                projected,
                length,
                part(q.codebook_weight@, 8 * i, 8),
                calc,
                #[trigger] scores[i],
            ),
{
    assert forall|i: int| 0 <= i < size implies is_code_score(
        projected,
        length,
        part(q.codebook_weight@, 8 * i, 8),
        calc,
        #[trigger] scores[i],
    ) by {
        assert(row(q.codebook_weight@, i, 8) =~= part(q.codebook_weight@, 8 * i, 8));
    }
}

} // verus!
