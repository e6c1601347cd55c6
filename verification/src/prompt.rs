//! The prompt of a speech model as a table of token rows.
use crate::arith::{lemma_cell, lemma_next_row, lemma_place, lemma_rows_monotone};
use crate::error::{message, ErrorView, InferError};
use crate::graph::DualArGraphSpec;
use crate::text::{dec, dec_u64, dec_usize};
use crate::tokenizer::{S2Tokenizer, S2TokenizerConfig};
use crate::tokenizer_s2cpp::{encoded, BpeView};
use vstd::prelude::*;
use vstd::slice::slice_to_vec;
use vstd::string::*;

verus! {

/// Codes of reference audio, codebook by codebook: the code of codebook `cb` at time `t` is
/// `data[cb * cols + t]`.
#[derive(Debug)]
pub struct PromptCodes {
    pub num_codebooks: u32,
    pub cols: usize,
    pub data: Vec<u32>,
}

/// Codes of reference audio together with the text spoken in it.
#[derive(Debug)]
pub struct PromptCodesFile {
    pub prompt_text: String,
    pub num_codebooks: u32,
    pub cols: usize,
    pub codes: Vec<u32>,
}

/// A prompt, row by row: token identifiers first, then one row for each codebook.
#[derive(Debug)]
pub struct PromptTensor {
    pub rows: u32,
    pub cols: usize,
    pub data: Vec<u32>,
}

/// What a prompt is built from.
#[derive(Debug, Clone, Copy)]
pub struct PromptBuildOptions<'a> {
    pub text: &'a str,
    pub prompt_text: Option<&'a str>,
    pub prompt_codes: Option<&'a PromptCodes>,
    pub graph: &'a DualArGraphSpec,
}

/// What is wrong with the number of codes in a file, if anything.
pub open spec fn codes_error(f: PromptCodesFile) -> Option<ErrorView> {
    let expected = f.cols as nat * f.num_codebooks as nat;
    if expected > usize::MAX {
        Some(message("prompt codes length overflow"@))
    } else if f.codes@.len() != expected {
        Some(
            message(
                "prompt codes length mismatch: expected "@ + dec(expected) + " (cols="@ + dec(
                    f.cols as nat,
                ) + " * num_codebooks="@ + dec(f.num_codebooks as nat) + "), got "@ + dec(
                    f.codes@.len(),
                ),
            ),
        )
    } else {
        None
    }
}

impl PromptCodesFile {
    /// The codes, where there are as many as the file says.
    pub fn to_prompt_codes(&self) -> (r: Result<PromptCodes, InferError>)
        ensures
            match r {
                Ok(c) => codes_error(*self) is None && c.num_codebooks == self.num_codebooks
                    && c.cols == self.cols && c.data@ == self.codes@,
                Err(e) => codes_error(*self) == Some(e@),
            },
    {
        let expected: usize = match self.cols.checked_mul(self.num_codebooks as usize) {
            None => {
                return Err(InferError::text("prompt codes length overflow"));
            },
            Some(n) => n,
        };
        if self.codes.len() != expected {
            let a = dec_usize(expected);
            let b = dec_usize(self.cols);
            let c = dec_u64(self.num_codebooks as u64);
            let d = dec_usize(self.codes.len());
            return Err(
                InferError::Message(
                    String::from_str("prompt codes length mismatch: expected ").concat(
                        a.as_str(),
                    ).concat(" (cols=").concat(b.as_str()).concat(" * num_codebooks=").concat(
                        c.as_str(),
                    ).concat("), got ").concat(d.as_str()),
                ),
            );
        }
        Ok(
            PromptCodes {
                num_codebooks: self.num_codebooks,
                cols: self.cols,
                data: slice_to_vec(self.codes.as_slice()),
            },
        )
    }
}

// ---------------------------------------------------------------------
// Time order
// ---------------------------------------------------------------------

/// What is wrong with a prompt that is to be put in time order, if anything.
pub open spec fn transpose_error(t: PromptTensor) -> Option<ErrorView> {
    let expected = t.rows as nat * t.cols as nat;
    if t.rows == 0 {
        Some(message("prompt rows must be non-zero"@))
    } else if expected > usize::MAX {
        Some(message("prompt data length overflow"@))
    } else if t.data@.len() != expected {
        Some(
            message(
                "prompt data length mismatch: expected "@ + dec(expected) + ", got "@ + dec(
                    t.data@.len(),
                ),
            ),
        )
    } else if exists|k: int| 0 <= k < t.data@.len() && #[trigger] t.data@[k] > i32::MAX {
        Some(message("prompt token id does not fit i32"@))
    } else {
        None
    }
}

/// The values of a table in time order: all rows of the first column, then of the next.
pub open spec fn time_major(data: Seq<u32>, rows: int, cols: int) -> Seq<i32> {
    Seq::new(data.len(), |k: int| data[(k % rows) * cols + k / rows] as i32)
}

/// Puts a prompt in time order.
pub fn transpose_to_time_major(tensor: &PromptTensor) -> (r: Result<Vec<i32>, InferError>)
    ensures
        match r {
            Ok(v) => transpose_error(*tensor) is None && v@ == time_major(
                tensor.data@,
                tensor.rows as int,
                tensor.cols as int,
            ),
            Err(e) => transpose_error(*tensor) == Some(e@),
        },
{
    let rows: usize = tensor.rows as usize;
    if rows == 0 {
        return Err(InferError::text("prompt rows must be non-zero"));
    }
    let cols: usize = tensor.cols;
    let expected: usize = match rows.checked_mul(cols) {
        None => {
            return Err(InferError::text("prompt data length overflow"));
        },
        Some(n) => n,
    };
    if tensor.data.len() != expected {
        let a = dec_usize(expected);
        let b = dec_usize(tensor.data.len());
        return Err(
            InferError::Message(
                String::from_str("prompt data length mismatch: expected ").concat(
                    a.as_str(),
                ).concat(", got ").concat(b.as_str()),
            ),
        );
    }
    let ghost want = time_major(tensor.data@, rows as int, cols as int);
    let mut flat: Vec<i32> = Vec::new();
    let mut t: usize = 0;
    assert(0 * rows as int == 0) by (nonlinear_arith);
    assert(cols as int * rows as int == rows as int * cols as int) by (nonlinear_arith);
    while t < cols
        invariant
            t <= cols,
            rows > 0,
            rows == tensor.rows,
            cols == tensor.cols,
            expected == rows * cols,
            cols * rows == rows * cols,
            tensor.data@.len() == expected,
            want == time_major(tensor.data@, rows as int, cols as int),
            flat@.len() == t * rows,
            flat@ == want.take(flat@.len() as int),
            forall|k: int|
                0 <= k < flat@.len() ==> 0 <= #[trigger] tensor.data@[(k % rows as int) * cols + k
                    / rows as int] <= i32::MAX,
        decreases cols - t,
    {
        let mut r: usize = 0;
        while r < rows
            invariant
                r <= rows,
                t < cols,
                rows > 0,
                rows == tensor.rows,
                cols == tensor.cols,
                expected == rows * cols,
                cols * rows == rows * cols,
                tensor.data@.len() == expected,
                want == time_major(tensor.data@, rows as int, cols as int),
                flat@.len() == t * rows + r,
                flat@ == want.take(flat@.len() as int),
                forall|k: int|
                    0 <= k < flat@.len() ==> 0 <= #[trigger] tensor.data@[(k % rows as int) * cols
                        + k / rows as int] <= i32::MAX,
            decreases rows - r,
        {
            proof {
                lemma_cell(r as int, rows as int, t as int, cols as int);
                lemma_cell(t as int, cols as int, r as int, rows as int);
            }
            let id: u32 = tensor.data[r * cols + t];
            if id > i32::MAX as u32 {
                return Err(InferError::text("prompt token id does not fit i32"));
            }
            let ghost before = flat@;
            flat.push(id as i32);
            proof {
                let k = before.len() as int;
                assert(k == t * rows + r);
                assert(want[k] == id as i32);
                assert(want.take(k + 1) =~= want.take(k).push(id as i32));
            }
            r = r + 1;
        }
        proof {
            lemma_next_row(t as int, rows as int);
        }
        t = t + 1;
    }
    proof {
        assert(want.take(flat@.len() as int) =~= want);
        assert forall|k: int| 0 <= k < tensor.data@.len() implies #[trigger] tensor.data@[k]
            <= i32::MAX by {
            lemma_place(k, rows as int, cols as int);
            let row = k / cols as int;
            let col = k % cols as int;
            lemma_cell(col, cols as int, row, rows as int);
            let m = col * rows + row;
            assert((m % rows as int) * cols + m / rows as int == k);
            assert(tensor.data@[(m % rows as int) * cols + m / rows as int] <= i32::MAX);
        }
    }
    Ok(flat)
}

/// In time order, the value of row `r` at time `t` stands at `t * rows + r`.
pub proof fn time_order_layout(data: Seq<u32>, rows: int, cols: int, r: int, t: int)
    requires
        0 <= r < rows,
        0 <= t < cols,
        data.len() == rows * cols,
    ensures
        time_major(data, rows, cols).len() == data.len(),
        0 <= t * rows + r < time_major(data, rows, cols).len(),
        time_major(data, rows, cols)[t * rows + r] == data[r * cols + t] as i32,
{
    lemma_cell(t, cols, r, rows);
    lemma_cell(r, rows, t, cols);
    assert(cols * rows == rows * cols) by (nonlinear_arith);
}

/// Putting a table in time order twice, with rows and columns exchanged, gives it back.
pub proof fn time_order_twice_is_the_table(data: Seq<u32>, rows: int, cols: int, k: int)
    requires
        rows > 0,
        cols > 0,
        data.len() == rows * cols,
        0 <= k < data.len(),
        forall|i: int| 0 <= i < data.len() ==> #[trigger] data[i] <= i32::MAX,
    ensures
        ({
            let once = time_major(data, rows, cols);
            let again = time_major(once.map_values(|v: i32| v as u32), cols, rows);
            again[k] as u32 == data[k]
        }),
{
    let once = time_major(data, rows, cols);
    let wide = once.map_values(|v: i32| v as u32);
    let again = time_major(wide, cols, rows);
    assert(cols * rows == rows * cols) by (nonlinear_arith);
    lemma_place(k, rows, cols);
    let row = k / cols;
    let col = k % cols;
    time_order_layout(data, rows, cols, row, col);
    let m = col * rows + row;
    assert(once[m] == data[k] as i32);
    assert(wide[m] == once[m] as u32);
    lemma_cell(col, cols, row, rows);
    assert(again[k] == wide[(k % cols) * rows + k / cols] as i32);
}

// ---------------------------------------------------------------------
// Building
// ---------------------------------------------------------------------

/// The token of a line break.
pub open spec fn newline() -> Seq<u32> {
    seq![198u32]
}

/// The turn that asks for speech: the text to speak, and the start of the answer.
pub open spec fn request_turn(t: BpeView, ids: S2TokenizerConfig, text: Seq<char>) -> Seq<u32> {
    encoded(t, "<|im_start|>user"@) + newline() + encoded(t, text) + seq![ids.im_end_id]
        + newline() + encoded(t, "<|im_start|>assistant"@) + newline() + seq![ids.voice_id]
}

/// The turn that gives the reference, up to its audio.
pub open spec fn reference_turn(t: BpeView, prompt_text: Seq<char>) -> Seq<u32> {
    encoded(t, "<|im_start|>system"@) + newline() + encoded(
        t,
        "convert the provided text to speech reference to the following:\n\nText:\n"@,
    ) + encoded(t, "<|speaker:0|>"@) + encoded(t, prompt_text) + encoded(t, "\n\nSpeech:\n"@)
}

/// What follows the audio of the reference.
pub open spec fn after_reference(t: BpeView, ids: S2TokenizerConfig, text: Seq<char>) -> Seq<u32> {
    seq![ids.im_end_id] + newline() + request_turn(t, ids, text)
}

/// Whether a prompt has a reference to use: a text, and codes for as many codebooks as the model
/// has.
pub open spec fn uses_reference(
    prompt_text: Seq<char>,
    codes: Option<PromptCodes>,
    num_codebooks: u32,
) -> bool {
    codes is Some && prompt_text.len() > 0 && codes->0.cols > 0 && codes->0.num_codebooks
        == num_codebooks
}

/// The tokens of semantic codes.
pub open spec fn semantic_ids(data: Seq<u32>, cols: nat, begin: u32) -> Seq<u32> {
    Seq::new(cols, |t: int| (data[t] + begin) as u32)
}

/// The table whose first row is given, with the codes below it from column `at` on.
pub open spec fn table(
    first: Seq<u32>,
    rows: nat,
    codes: Seq<u32>,
    at: int,
    span: int,
) -> Seq<u32> {
    let cols = first.len() as int;
    Seq::new(
        rows * first.len(),
        |k: int|
            if k / cols == 0 {
                first[k % cols]
            } else if at <= k % cols < at + span {
                codes[(k / cols - 1) * span + (k % cols - at)]
            } else {
                0
            },
    )
}

/// The first row of a prompt with a reference.
pub open spec fn reference_row(
    t: BpeView,
    ids: S2TokenizerConfig,
    text: Seq<char>,
    prompt_text: Seq<char>,
    codes: PromptCodes,
    begin: u32,
) -> Seq<u32> {
    reference_turn(t, prompt_text) + semantic_ids(codes.data@, codes.cols as nat, begin)
        + after_reference(t, ids, text)
}

/// The text of an optional prompt.
pub open spec fn prompt_text_of(o: PromptBuildOptions) -> Seq<char> {
    match o.prompt_text {
        Some(s) => s@,
        None => Seq::empty(),
    }
}

/// The codes of an optional prompt.
pub open spec fn prompt_codes_of(o: PromptBuildOptions) -> Option<PromptCodes> {
    match o.prompt_codes {
        Some(c) => Some(*c),
        None => None,
    }
}

/// Whether the options hold a reference to use.
pub open spec fn has_reference(o: PromptBuildOptions) -> bool {
    o.prompt_text is Some && uses_reference(
        prompt_text_of(o),
        prompt_codes_of(o),
        o.graph.num_codebooks,
    )
}

/// The first row of the prompt.
pub open spec fn prompt_row(t: BpeView, ids: S2TokenizerConfig, o: PromptBuildOptions) -> Seq<u32> {
    if has_reference(o) {
        reference_row(
            t,
            ids,
            o.text@,
            prompt_text_of(o),
            prompt_codes_of(o)->0,
            o.graph.semantic_begin_id,
        )
    } else {
        request_turn(t, ids, o.text@)
    }
}

/// What is wrong with the options, if anything.
pub open spec fn prompt_error(o: PromptBuildOptions) -> Option<ErrorView> {
    if (o.prompt_text is Some) != (o.prompt_codes is Some) {
        Some(message("prompt_text and prompt_codes must both be set or both omitted"@))
    } else if has_reference(o) && exists|t: int|
        0 <= t < prompt_codes_of(o)->0.cols && #[trigger] prompt_codes_of(o)->0.data@[t]
            + o.graph.semantic_begin_id > u32::MAX {
        Some(message("prompt semantic id overflow"@))
    } else {
        None
    }
}

/// The table of the prompt.
pub open spec fn prompt_table(
    t: BpeView,
    ids: S2TokenizerConfig,
    o: PromptBuildOptions,
) -> Seq<u32> {
    let rows = (o.graph.num_codebooks + 1) as nat;
    if has_reference(o) {
        let codes = prompt_codes_of(o)->0;
        table(
            prompt_row(t, ids, o),
            rows,
            codes.data@,
            reference_turn(t, prompt_text_of(o)).len() as int,
            codes.cols as int,
        )
    } else {
        table(prompt_row(t, ids, o), rows, Seq::empty(), 0, 0)
    }
}

/// Whether the codes of a reference that is spoken after are as many as they say.
pub open spec fn codes_are_there(o: PromptBuildOptions) -> bool {
    has_reference(o) ==> {
        let codes = prompt_codes_of(o)->0;
        codes.data@.len() >= codes.cols && codes.data@.len() >= codes.cols * codes.num_codebooks
    }
}

fn append_ids(dst: &mut Vec<u32>, src: &[u32])
    ensures
        final(dst)@ == old(dst)@ + src@,
{
    let ghost before = dst@;
    let mut i: usize = 0;
    assert(before + src@.take(0) =~= before);
    while i < src.len()
        invariant
            i <= src@.len(),
            dst@ == before + src@.take(i as int),
        decreases src@.len() - i,
    {
        dst.push(src[i]);
        assert(before + src@.take(i as int + 1) =~= (before + src@.take(i as int)).push(
            src@[i as int],
        ));
        i = i + 1;
    }
    assert(src@.take(i as int) =~= src@);
}

fn append_text(dst: &mut Vec<u32>, tokenizer: &S2Tokenizer, text: &str)
    ensures
        final(dst)@ == old(dst)@ + encoded(tokenizer.bpe(), text@),
{
    let ids = tokenizer.encode_s2cpp(text).ids;
    append_ids(dst, ids.as_slice());
}

fn append_u32(dst: &mut Vec<u32>, value: u32)
    ensures
        final(dst)@ == old(dst)@ + seq![value],
{
    let ghost before = dst@;
    dst.push(value);
    assert(dst@ =~= before + seq![value]);
}

fn append_newline(dst: &mut Vec<u32>, tokenizer: &S2Tokenizer)
    ensures
        final(dst)@ == old(dst)@ + newline(),
{
    let ids = tokenizer.encode_newline();
    append_ids(dst, ids.as_slice());
}

fn append_request(dst: &mut Vec<u32>, tokenizer: &S2Tokenizer, text: &str)
    ensures
        final(dst)@ == old(dst)@ + request_turn(tokenizer.bpe(), tokenizer.ids(), text@),
{
    let ghost before = dst@;
    let ids = tokenizer.config();
    let mut turn: Vec<u32> = Vec::new();
    append_text(&mut turn, tokenizer, "<|im_start|>user");
    assert(turn@ =~= encoded(tokenizer.bpe(), "<|im_start|>user"@));
    append_newline(&mut turn, tokenizer);
    append_text(&mut turn, tokenizer, text);
    append_u32(&mut turn, ids.im_end_id);
    append_newline(&mut turn, tokenizer);
    append_text(&mut turn, tokenizer, "<|im_start|>assistant");
    append_newline(&mut turn, tokenizer);
    append_u32(&mut turn, ids.voice_id);
    append_ids(dst, turn.as_slice());
}

fn reference_ids(tokenizer: &S2Tokenizer, prompt_text: &str) -> (r: Vec<u32>)
    ensures
        r@ == reference_turn(tokenizer.bpe(), prompt_text@),
{
    let mut turn: Vec<u32> = Vec::new();
    append_text(&mut turn, tokenizer, "<|im_start|>system");
    assert(turn@ =~= encoded(tokenizer.bpe(), "<|im_start|>system"@));
    append_newline(&mut turn, tokenizer);
    append_text(
        &mut turn,
        tokenizer,
        "convert the provided text to speech reference to the following:\n\nText:\n",
    );
    append_text(&mut turn, tokenizer, "<|speaker:0|>");
    append_text(&mut turn, tokenizer, prompt_text);
    append_text(&mut turn, tokenizer, "\n\nSpeech:\n");
    turn
}

fn fill_table(first: &Vec<u32>, rows: u32, codes: &[u32], at: usize, span: usize) -> (r: Vec<u32>)
    requires
        first@.len() > 0,
        rows * first@.len() <= usize::MAX,
        at + span <= first@.len(),
        rows > 0,
        (rows - 1) * span <= codes@.len(),
    ensures
        r@ == table(first@, rows as nat, codes@, at as int, span as int),
{
    let cols: usize = first.len();
    let have: usize = codes.len();
    let ghost want = table(first@, rows as nat, codes@, at as int, span as int);
    let mut data: Vec<u32> = Vec::new();
    let mut row: u32 = 0;
    assert(0 * cols as int == 0) by (nonlinear_arith);
    while row < rows
        invariant
            row <= rows,
            cols == first@.len(),
            cols > 0,
            at + span <= cols,
            rows * cols <= usize::MAX,
            have == codes@.len(),
            (rows - 1) * span <= codes@.len(),
            want == table(first@, rows as nat, codes@, at as int, span as int),
            data@.len() == row * cols,
            data@ == want.take(data@.len() as int),
        decreases rows - row,
    {
        let mut col: usize = 0;
        while col < cols
            invariant
                col <= cols,
                row < rows,
                cols == first@.len(),
                cols > 0,
                at + span <= cols,
                rows * cols <= usize::MAX,
                have == codes@.len(),
                (rows - 1) * span <= codes@.len(),
                want == table(first@, rows as nat, codes@, at as int, span as int),
                data@.len() == row * cols + col,
                data@ == want.take(data@.len() as int),
            decreases cols - col,
        {
            proof {
                lemma_cell(row as int, rows as int, col as int, cols as int);
            }
            let value: u32 = if row == 0 {
                first[col]
            } else if at <= col && col < at + span {
                proof {
                    lemma_cell(row - 1, rows - 1, col - at, span as int);
                    lemma_rows_monotone(row - 1, rows - 1, span as int);
                }
                codes[(row as usize - 1) * span + (col - at)]
            } else {
                0
            };
            let ghost before = data@;
            data.push(value);
            proof {
                let k = before.len() as int;
                assert(want[k] == value);
                assert(want.take(k + 1) =~= want.take(k).push(value));
            }
            col = col + 1;
        }
        proof {
            lemma_next_row(row as int, cols as int);
        }
        row = row + 1;
    }
    assert(want.take(data@.len() as int) =~= want);
    data
}

/// Builds the prompt of a model: the reference, where there is one, and the text to speak.
pub fn build_prompt(tokenizer: &S2Tokenizer, options: PromptBuildOptions<'_>) -> (r: Result<
    PromptTensor,
    InferError,
>)
    requires
        options.graph.num_codebooks < u32::MAX,
        codes_are_there(options),
        prompt_row(tokenizer.bpe(), tokenizer.ids(), options).len() * (options.graph.num_codebooks
            + 1) <= usize::MAX,
    ensures
        match r {
            Ok(p) => prompt_error(options) is None && p.rows == options.graph.num_codebooks + 1
                && p.cols == prompt_row(tokenizer.bpe(), tokenizer.ids(), options).len() && p.data@
                == prompt_table(tokenizer.bpe(), tokenizer.ids(), options),
            Err(e) => prompt_error(options) == Some(e@),
        },
{
    let ghost t = tokenizer.bpe();
    let ghost ids = tokenizer.ids();
    let num_codebooks: u32 = options.graph.num_codebooks;
    let rows: u32 = num_codebooks + 1;
    let begin: u32 = options.graph.semantic_begin_id;
    match (options.prompt_text, options.prompt_codes) {
        (Some(prompt_text), Some(codes)) => {
            if !prompt_text.is_empty() && codes.cols > 0 && codes.num_codebooks == num_codebooks {
                let mut first = reference_ids(tokenizer, prompt_text);
                let ghost pre = first@;
                let at: usize = first.len();
                let span: usize = codes.cols;
                let ghost semantic = semantic_ids(codes.data@, span as nat, begin);
                let mut i: usize = 0;
                assert(pre + semantic.take(0) =~= pre);
                while i < span
                    invariant
                        i <= span,
                        span == codes.cols,
                        span <= codes.data@.len(),
                        semantic == semantic_ids(codes.data@, span as nat, begin),
                        first@ == pre + semantic.take(i as int),
                        prompt_codes_of(options) == Some(*codes),
                        has_reference(options),
                        options.prompt_codes is Some,
                        options.prompt_text is Some,
                        begin == options.graph.semantic_begin_id,
                        forall|k: int|
                            0 <= k < i ==> #[trigger] codes.data@[k] + begin <= u32::MAX,
                    decreases span - i,
                {
                    match codes.data[i].checked_add(begin) {
                        None => {
                            assert(prompt_codes_of(options)->0.data@[i as int] + begin > u32::MAX);
                            return Err(InferError::text("prompt semantic id overflow"));
                        },
                        Some(id) => {
                            first.push(id);
                            assert(pre + semantic.take(i as int + 1) =~= (pre + semantic.take(
                                i as int,
                            )).push(id));
                        },
                    }
                    i = i + 1;
                }
                assert(semantic.take(i as int) =~= semantic);
                let mut after: Vec<u32> = Vec::new();
                let config = tokenizer.config();
                append_u32(&mut after, config.im_end_id);
                assert(after@ =~= seq![config.im_end_id]);
                append_newline(&mut after, tokenizer);
                append_request(&mut after, tokenizer, options.text);
                append_ids(&mut first, after.as_slice());
                assert(first@ == prompt_row(t, ids, options));
                proof {
                    assert(first@.len() >= at + span);
                    assert(rows * first@.len() == first@.len() * rows) by (nonlinear_arith);
                    assert(num_codebooks * span == span * num_codebooks) by (nonlinear_arith);
                }
                let data = fill_table(&first, rows, codes.data.as_slice(), at, span);
                return Ok(PromptTensor { rows, cols: first.len(), data });
            }
        },
        (None, None) => {},
        _ => {
            return Err(
                InferError::text(
                    "prompt_text and prompt_codes must both be set or both omitted",
                ),
            );
        },
    }
    let mut first: Vec<u32> = Vec::new();
    append_request(&mut first, tokenizer, options.text);
    assert(first@ =~= request_turn(t, ids, options.text@));
    assert(!has_reference(options));
    let none: Vec<u32> = Vec::new();
    proof {
        assert(none@ =~= Seq::<u32>::empty());
        assert(rows * first@.len() == first@.len() * rows) by (nonlinear_arith);
        assert((rows - 1) * 0 == 0);
    }
    let data = fill_table(&first, rows, none.as_slice(), 0, 0);
    Ok(PromptTensor { rows, cols: first.len(), data })
}

/// The table of a prompt has as many values as rows times columns; its first row holds the tokens.
pub proof fn prompt_table_layout(t: BpeView, ids: S2TokenizerConfig, o: PromptBuildOptions, c: int)
    requires
        0 <= c < prompt_row(t, ids, o).len(),
    ensures
        prompt_table(t, ids, o).len() == (o.graph.num_codebooks + 1) * prompt_row(t, ids, o).len(),
        prompt_table(t, ids, o)[c] == prompt_row(t, ids, o)[c],
{
    let cols = prompt_row(t, ids, o).len() as int;
    let rows = o.graph.num_codebooks + 1;
    lemma_cell(0, rows, c, cols);
    assert(0 * cols + c == c) by (nonlinear_arith);
}

/// Below the first row a prompt holds the codes of its reference where the reference's audio
/// stands, and zeros everywhere else.
pub proof fn prompt_codes_layout(
    t: BpeView,
    ids: S2TokenizerConfig,
    o: PromptBuildOptions,
    cb: int,
    c: int,
)
    requires
        0 <= cb < o.graph.num_codebooks,
        0 <= c < prompt_row(t, ids, o).len(),
    ensures
        ({
            let cols = prompt_row(t, ids, o).len() as int;
            let at = reference_turn(t, prompt_text_of(o)).len() as int;
            let span = prompt_codes_of(o)->0.cols as int;
            prompt_table(t, ids, o)[(cb + 1) * cols + c] == (if has_reference(o) && at <= c < at
                + span {
                prompt_codes_of(o)->0.data@[cb * span + (c - at)]
            } else {
                0
            })
        }),
{
    let cols = prompt_row(t, ids, o).len() as int;
    let rows = o.graph.num_codebooks + 1;
    lemma_cell(cb + 1, rows, c, cols);
}

/// Where the tokens of the text to speak start in the first row of a prompt: what follows them is the
/// end of the turn and the start of the answer.
pub open spec fn text_start(t: BpeView, ids: S2TokenizerConfig, o: PromptBuildOptions) -> int {
    prompt_row(t, ids, o).len() - 4 - encoded(t, "<|im_start|>assistant"@).len() - encoded(
        t,
        o.text@,
    ).len()
}

/// The first row of a prompt holds the tokens of the text to speak: before them stand the tokens that
/// open the user's turn and a line break, behind them the end of the turn, a line break, the tokens
/// that open the answer, a line break, and the token for speech.
pub proof fn text_stands_in_the_prompt(t: BpeView, ids: S2TokenizerConfig, o: PromptBuildOptions)
    ensures
        ({
            let row = prompt_row(t, ids, o);
            let user = encoded(t, "<|im_start|>user"@);
            let answer = encoded(t, "<|im_start|>assistant"@);
            let text = encoded(t, o.text@);
            let at = text_start(t, ids, o);
            let end = at + text.len();
            &&& at >= 1 + user.len()
            &&& row.subrange(at - 1 - user.len(), at - 1) == user
            &&& row[at - 1] == 198
            &&& row.subrange(at, end) == text
            &&& row[end] == ids.im_end_id
            &&& row[end + 1] == 198
            &&& row.subrange(end + 2, end + 2 + answer.len()) == answer
            &&& row[end + 2 + answer.len()] == 198
            &&& row[end + 3 + answer.len()] == ids.voice_id
            &&& row.len() == end + 4 + answer.len()
        }),
{
    let row = prompt_row(t, ids, o);
    let user = encoded(t, "<|im_start|>user"@);
    let answer = encoded(t, "<|im_start|>assistant"@);
    let text = encoded(t, o.text@);
    let turn = request_turn(t, ids, o.text@);
    lemma_row_ends_with_turn(t, ids, o);
    lemma_turn_parts(row, row.len() - turn.len(), user, text, answer, ids.im_end_id, ids.voice_id);
}

proof fn lemma_row_ends_with_turn(t: BpeView, ids: S2TokenizerConfig, o: PromptBuildOptions)
    ensures
        ({
            let row = prompt_row(t, ids, o);
            let turn = request_turn(t, ids, o.text@);
            row.len() >= turn.len() && row.skip(row.len() - turn.len()) == turn
        }),
{
    let row = prompt_row(t, ids, o);
    let turn = request_turn(t, ids, o.text@);
    if has_reference(o) {
        let codes = prompt_codes_of(o)->0;
        lemma_last_of_three(
            reference_turn(t, prompt_text_of(o)),
            semantic_ids(codes.data@, codes.cols as nat, o.graph.semantic_begin_id),
            seq![ids.im_end_id] + newline(),
            turn,
        );
    } else {
        assert(row.skip(0) =~= turn);
    }
}

proof fn lemma_last_of_three(a: Seq<u32>, b: Seq<u32>, c: Seq<u32>, d: Seq<u32>)
    ensures
        (a + b + (c + d)).len() == a.len() + b.len() + c.len() + d.len(),
        (a + b + (c + d)).skip((a.len() + b.len() + c.len()) as int) == d,
{
    assert((a + b + (c + d)).skip((a.len() + b.len() + c.len()) as int) =~= d);
}

proof fn lemma_turn_parts(
    row: Seq<u32>,
    before: int,
    user: Seq<u32>,
    text: Seq<u32>,
    answer: Seq<u32>,
    end_id: u32,
    voice: u32,
)
    requires
        0 <= before <= row.len(),
        row.skip(before) == user + newline() + text + seq![end_id] + newline() + answer + newline()
            + seq![voice],
    ensures
        ({
            let at = before + user.len() + 1;
            let end = at + text.len();
            &&& row.subrange(at - 1 - user.len(), at - 1) == user
            &&& row[at - 1] == 198
            &&& row.subrange(at, end) == text
            &&& row[end] == end_id
            &&& row[end + 1] == 198
            &&& row.subrange(end + 2, end + 2 + answer.len()) == answer
            &&& row[end + 2 + answer.len()] == 198
            &&& row[end + 3 + answer.len()] == voice
            &&& row.len() == end + 4 + answer.len()
        }),
{
    let turn = user + newline() + text + seq![end_id] + newline() + answer + newline()
        + seq![voice];
    let at = before + user.len() + 1;
    let end = at + text.len();
    assert forall|k: int| 0 <= k < turn.len() implies row[before + k] == #[trigger] turn[k] by {
        assert(row.skip(before)[k] == row[before + k]);
    }
    assert(turn.len() == user.len() + text.len() + answer.len() + 5);
    assert(turn[user.len() as int] == 198);
    assert(turn[user.len() as int + 1 + text.len()] == end_id);
    assert(turn[user.len() as int + 2 + text.len()] == 198);
    assert(turn[user.len() as int + 3 + text.len() + answer.len()] == 198);
    assert(turn[user.len() as int + 4 + text.len() + answer.len()] == voice);
    assert(row.subrange(at - 1 - user.len(), at - 1) =~= user) by {
        assert forall|k: int| 0 <= k < user.len() implies row[before + k] == #[trigger] user[k] by {
            assert(turn[k] == user[k]);
        }
    }
    assert(row.subrange(at, end) =~= text) by {
        assert forall|k: int| 0 <= k < text.len() implies row[at + k] == #[trigger] text[k] by {
            assert(turn[user.len() as int + 1 + k] == text[k]);
        }
    }
    assert(row.subrange(end + 2, end + 2 + answer.len()) =~= answer) by {
        assert forall|k: int| 0 <= k < answer.len() implies row[end + 2 + k] == #[trigger] answer[k]
            by {
            assert(turn[user.len() as int + 3 + text.len() + k] == answer[k]);
        }
    }
}

/// Two texts whose tokens differ give prompts whose first rows differ, all else being the same; and
/// so do the tables.
pub proof fn prompts_tell_texts_apart(
    t: BpeView,
    ids: S2TokenizerConfig,
    a: PromptBuildOptions,
    b: PromptBuildOptions,
)
    requires
        encoded(t, a.text@) != encoded(t, b.text@),
    ensures
        a.prompt_text == b.prompt_text && a.prompt_codes == b.prompt_codes && a.graph == b.graph
            ==> prompt_row(t, ids, a) != prompt_row(t, ids, b) && prompt_table(t, ids, a)
            != prompt_table(t, ids, b),
{
    if a.prompt_text == b.prompt_text && a.prompt_codes == b.prompt_codes && a.graph == b.graph {
        let p = prompt_row(t, ids, a);
        let q = prompt_row(t, ids, b);
        text_stands_in_the_prompt(t, ids, a);
        text_stands_in_the_prompt(t, ids, b);
        assert(has_reference(a) == has_reference(b));
        assert(p.len() - encoded(t, a.text@).len() == q.len() - encoded(t, b.text@).len());
        if p == q {
            assert(text_start(t, ids, a) == text_start(t, ids, b));
            assert(false);
        }
        if prompt_table(t, ids, a) == prompt_table(t, ids, b) {
            let rows = a.graph.num_codebooks + 1;
            prompt_table_layout(t, ids, a, 0);
            prompt_table_layout(t, ids, b, 0);
            assert(p.len() == q.len()) by (nonlinear_arith)
                requires
                    rows * p.len() == rows * q.len(),
                    rows > 0,
            ;
            assert(p =~= q) by {
                assert forall|c: int| 0 <= c < p.len() implies p[c] == q[c] by {
                    prompt_table_layout(t, ids, a, c);
                    prompt_table_layout(t, ids, b, c);
                }
            }
        }
    }
}

/// The first row of a prompt with a reference starts with the turn of the system: the instruction, the
/// speaker, and the text that the reference speaks. The tokens of its semantic codes follow, each its
/// code counted from the first speech token, and the end of the turn.
pub proof fn reference_stands_in_the_prompt(
    t: BpeView,
    ids: S2TokenizerConfig,
    o: PromptBuildOptions,
    k: int,
)
    requires
        has_reference(o),
        0 <= k < prompt_codes_of(o)->0.cols,
        prompt_error(o) is None,
    ensures
        ({
            let row = prompt_row(t, ids, o);
            let codes = prompt_codes_of(o)->0;
            let system = encoded(t, "<|im_start|>system"@);
            let task = encoded(
                t,
                "convert the provided text to speech reference to the following:\n\nText:\n"@,
            );
            let speaker = encoded(t, "<|speaker:0|>"@);
            let spoken = encoded(t, prompt_text_of(o));
            let speech = encoded(t, "\n\nSpeech:\n"@);
            let task_at = system.len() as int + 1;
            let speaker_at = task_at + task.len();
            let spoken_at = speaker_at + speaker.len();
            let speech_at = spoken_at + spoken.len();
            let codes_at = speech_at + speech.len();
            &&& row.take(system.len() as int) == system
            &&& row[system.len() as int] == 198
            &&& row.subrange(task_at, speaker_at) == task
            &&& row.subrange(speaker_at, spoken_at) == speaker
            &&& row.subrange(spoken_at, speech_at) == spoken
            &&& row.subrange(speech_at, codes_at) == speech
            &&& row[codes_at + k] == codes.data@[k] + o.graph.semantic_begin_id
            &&& row[codes_at + codes.cols] == ids.im_end_id
            &&& row[codes_at + codes.cols + 1] == 198
            &&& row.len() == codes_at + codes.cols + 2 + request_turn(t, ids, o.text@).len()
        }),
{
    let row = prompt_row(t, ids, o);
    let codes = prompt_codes_of(o)->0;
    let system = encoded(t, "<|im_start|>system"@);
    let task = encoded(
        t,
        "convert the provided text to speech reference to the following:\n\nText:\n"@,
    );
    let speaker = encoded(t, "<|speaker:0|>"@);
    let spoken = encoded(t, prompt_text_of(o));
    let speech = encoded(t, "\n\nSpeech:\n"@);
    let task_at = system.len() as int + 1;
    let speaker_at = task_at + task.len();
    let spoken_at = speaker_at + speaker.len();
    let speech_at = spoken_at + spoken.len();
    let codes_at = speech_at + speech.len();
    let turn = reference_turn(t, prompt_text_of(o));
    let tokens = semantic_ids(codes.data@, codes.cols as nat, o.graph.semantic_begin_id);
    let rest = request_turn(t, ids, o.text@);
    lemma_reference_parts(row, system, task, speaker, spoken, speech, tokens, ids.im_end_id, rest);
    assert(codes.data@[k] + o.graph.semantic_begin_id <= u32::MAX) by {
        let _ = prompt_codes_of(o)->0.data@[k];
    }
    assert(row[codes_at + k] == tokens[k]);
}

proof fn lemma_reference_parts(
    row: Seq<u32>,
    system: Seq<u32>,
    task: Seq<u32>,
    speaker: Seq<u32>,
    spoken: Seq<u32>,
    speech: Seq<u32>,
    tokens: Seq<u32>,
    end_id: u32,
    rest: Seq<u32>,
)
    requires
        row == (system + newline() + task + speaker + spoken + speech) + tokens + (seq![end_id]
            + newline() + rest),
    ensures
        ({
            let task_at = system.len() as int + 1;
            let speaker_at = task_at + task.len();
            let spoken_at = speaker_at + speaker.len();
            let speech_at = spoken_at + spoken.len();
            let codes_at = speech_at + speech.len();
            &&& row.take(system.len() as int) == system
            &&& row[system.len() as int] == 198
            &&& row.subrange(task_at, speaker_at) == task
            &&& row.subrange(speaker_at, spoken_at) == speaker
            &&& row.subrange(spoken_at, speech_at) == spoken
            &&& row.subrange(speech_at, codes_at) == speech
            &&& forall|k: int| 0 <= k < tokens.len() ==> row[codes_at + k] == #[trigger] tokens[k]
            &&& row[codes_at + tokens.len()] == end_id
            &&& row[codes_at + tokens.len() + 1] == 198
            &&& row.len() == codes_at + tokens.len() + 2 + rest.len()
        }),
{
    let task_at = system.len() as int + 1;
    let speaker_at = task_at + task.len();
    let spoken_at = speaker_at + speaker.len();
    let speech_at = spoken_at + spoken.len();
    let codes_at = speech_at + speech.len();
    assert(row.take(system.len() as int) =~= system);
    assert(row.subrange(task_at, speaker_at) =~= task);
    assert(row.subrange(speaker_at, spoken_at) =~= speaker);
    assert(row.subrange(spoken_at, speech_at) =~= spoken);
    assert(row.subrange(speech_at, codes_at) =~= speech);
}

/// A prompt has a reference where it has codes, as many codebooks of them as the model has, and a text
/// that they speak.
pub proof fn references_need_codes_for_all_codebooks(o: PromptBuildOptions)
    ensures
        has_reference(o) <==> {
            &&& o.prompt_text is Some
            &&& o.prompt_codes is Some
            &&& prompt_text_of(o).len() > 0
            &&& prompt_codes_of(o)->0.cols > 0
            &&& prompt_codes_of(o)->0.num_codebooks == o.graph.num_codebooks
        },
{
}

} // verus!
