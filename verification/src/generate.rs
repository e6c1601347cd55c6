//! Generation of speech codes, token by token.
use crate::arith::{lemma_cell, lemma_next_row, lemma_place, lemma_rows_monotone};
use crate::error::{message, ErrorView, InferError};
use crate::graph::DualArGraphSpec;
use crate::slow_ar::SlowArDecodeProfile;
use crate::text::{dec, dec_u64, dec_usize};
use crate::tokenizer::S2TokenizerConfig;
use vstd::prelude::*;
use vstd::string::*;

verus! {

/// How to generate. Floating-point numbers are kept as their bits.
#[derive(Debug, Clone, Copy, PartialEq, Eq, Structural)]
pub struct GenerateParams {
    pub max_new_tokens: u32,
    pub temperature: u32,
    pub top_p: u32,
    pub top_k: i32,
    pub min_tokens_before_end: u32,
}

/// The single-precision bits of seven tenths.
pub const SEVEN_TENTHS_BITS: u32 = 0x3f33_3333;

impl Default for GenerateParams {
    fn default() -> (r: GenerateParams)
        ensures
            r == (GenerateParams {
                max_new_tokens: 512,
                temperature: SEVEN_TENTHS_BITS,
                top_p: SEVEN_TENTHS_BITS,
                top_k: 30,
                min_tokens_before_end: 64,
            }),
    {
        GenerateParams {
            max_new_tokens: 512,
            temperature: SEVEN_TENTHS_BITS,
            top_p: SEVEN_TENTHS_BITS,
            top_k: 30,
            min_tokens_before_end: 64,
        }
    }
}

/// Generated semantic tokens.
#[derive(Debug)]
pub struct GenerateSemanticResult {
    pub token_ids: Vec<u32>,
}

/// Generated codes, codebook by codebook: the code of codebook `cb` in frame `t` is
/// `codes[cb * n_frames + t]`.
#[derive(Debug)]
pub struct GenerateCodesResult {
    pub codes: Vec<i32>,
    pub num_codebooks: u32,
    pub n_frames: u32,
    pub slow_ar_profile: SlowArDecodeProfile,
}

/// The first generated frame, with the state it was generated from.
#[derive(Debug)]
pub struct FastArFirstFrameResult<T> {
    pub prompt_cols: usize,
    pub main_token_id: u32,
    pub slow_hidden: Vec<T>,
    pub codebook_ids: Vec<u32>,
}

// ---------------------------------------------------------------------
// Single steps
// ---------------------------------------------------------------------

/// Whether a token stands for a semantic code.
pub open spec fn is_semantic(token: u32, g: DualArGraphSpec) -> bool {
    g.semantic_begin_id <= token <= g.semantic_end_id
}

/// The semantic code of a token: none for other tokens, and never beyond the codebook.
pub open spec fn semantic_code(token: u32, g: DualArGraphSpec) -> u32 {
    if !is_semantic(token, g) {
        0
    } else if token - g.semantic_begin_id >= g.codebook_size {
        if g.codebook_size == 0 {
            0
        } else {
            (g.codebook_size - 1) as u32
        }
    } else {
        (token - g.semantic_begin_id) as u32
    }
}

/// The semantic code of a token.
pub fn semantic_to_codebook_id(main_token: u32, graph: &DualArGraphSpec) -> (r: u32)
    ensures
        r == semantic_code(main_token, *graph),
{
    if main_token < graph.semantic_begin_id || main_token > graph.semantic_end_id {
        return 0;
    }
    let code: u32 = main_token - graph.semantic_begin_id;
    if code >= graph.codebook_size {
        return graph.codebook_size.saturating_sub(1);
    }
    code
}

/// Whether the end of speech is still barred, after so many tokens.
pub open spec fn bars_end(generated: usize, min_tokens: u32) -> bool {
    (generated as u32) < min_tokens
}

/// Whether the end of speech is still barred, after so many tokens.
pub fn blocks_im_end(generated_after_prefill: usize, min_tokens_before_end: u32) -> (r: bool)
    ensures
        r == bars_end(generated_after_prefill, min_tokens_before_end),
{
    (#[verifier::truncate] (generated_after_prefill as u32)) < min_tokens_before_end
}

/// What is wrong with the numbers that stand for a token, if anything.
pub open spec fn step_error(
    token: u32,
    codebooks: Option<Seq<u32>>,
    g: DualArGraphSpec,
) -> Option<ErrorView> {
    if token > i32::MAX {
        Some(message("main token id does not fit i32"@))
    } else if !is_semantic(token, g) {
        None
    } else {
        match codebooks {
            Some(ids) => if ids.len() != g.num_codebooks {
                Some(
                    message(
                        "codebooks_cb length "@ + dec(ids.len()) + " != num_codebooks "@ + dec(
                            g.num_codebooks as nat,
                        ),
                    ),
                )
            } else if exists|i: int| 0 <= i < ids.len() && #[trigger] ids[i] > i32::MAX {
                Some(message("codebook id does not fit i32"@))
            } else {
                None
            },
            None => if token - g.semantic_begin_id >= g.codebook_size {
                Some(
                    message(
                        "semantic token "@ + dec(token as nat) + " maps outside codebook_size "@
                            + dec(g.codebook_size as nat),
                    ),
                )
            } else {
                None
            },
        }
    }
}

/// The numbers that stand for a token: the token itself, then its codes where it is a semantic one,
/// else zeros.
pub open spec fn step_input(token: u32, codebooks: Option<Seq<u32>>, g: DualArGraphSpec) -> Seq<
    i32,
> {
    Seq::new(
        (g.num_codebooks + 1) as nat,
        |i: int|
            if i == 0 {
                token as i32
            } else if !is_semantic(token, g) {
                0
            } else {
                match codebooks {
                    Some(ids) => ids[i - 1] as i32,
                    None => if i == 1 {
                        (token - g.semantic_begin_id) as i32
                    } else {
                        0
                    },
                }
            },
    )
}

/// An optional slice as an optional sequence.
pub open spec fn optional_ids(ids: Option<&[u32]>) -> Option<Seq<u32>> {
    match ids {
        Some(s) => Some(s@),
        None => None,
    }
}

/// The numbers that stand for a token in the next step.
pub fn build_step_input(
    main_token: u32,
    codebooks_cb: Option<&[u32]>,
    graph: &DualArGraphSpec,
) -> (r: Result<Vec<i32>, InferError>)
    requires
        graph.num_codebooks < usize::MAX,
        graph.num_codebooks < u32::MAX,
        is_semantic(main_token, *graph) && codebooks_cb is None ==> graph.num_codebooks >= 1,
    ensures
        match r {
            Ok(v) => step_error(main_token, optional_ids(codebooks_cb), *graph) is None && v@
                == step_input(main_token, optional_ids(codebooks_cb), *graph),
            Err(e) => step_error(main_token, optional_ids(codebooks_cb), *graph) == Some(e@),
        },
{
    let width: usize = graph.num_codebooks as usize + 1;
    if main_token > i32::MAX as u32 {
        return Err(InferError::text("main token id does not fit i32"));
    }
    let ghost want = step_input(main_token, optional_ids(codebooks_cb), *graph);
    let mut flat: Vec<i32> = Vec::new();
    flat.push(main_token as i32);
    let semantic = main_token >= graph.semantic_begin_id && main_token <= graph.semantic_end_id;
    if semantic {
        match codebooks_cb {
            Some(ids) => {
                if ids.len() != graph.num_codebooks as usize {
                    let a = dec_usize(ids.len());
                    let b = dec_u64(graph.num_codebooks as u64);
                    return Err(
                        InferError::Message(
                            String::from_str("codebooks_cb length ").concat(a.as_str()).concat(
                                " != num_codebooks ",
                            ).concat(b.as_str()),
                        ),
                    );
                }
                let mut i: usize = 0;
                while i < ids.len()
                    invariant
                        i <= ids@.len(),
                        ids@.len() == graph.num_codebooks,
                        codebooks_cb == Some(ids),
                        main_token <= i32::MAX,
                        is_semantic(main_token, *graph),
                        flat@.len() == i + 1,
                        flat@[0] == main_token as i32,
                        forall|k: int| 0 <= k < i ==> #[trigger] ids@[k] <= i32::MAX,
                        forall|k: int| 1 <= k <= i ==> #[trigger] flat@[k] == ids@[k - 1] as i32,
                    decreases ids@.len() - i,
                {
                    if ids[i] > i32::MAX as u32 {
                        return Err(InferError::text("codebook id does not fit i32"));
                    }
                    flat.push(ids[i] as i32);
                    i = i + 1;
                }
                assert(flat@ =~= want);
                return Ok(flat);
            },
            None => {
                let code: u32 = main_token - graph.semantic_begin_id;
                if code >= graph.codebook_size {
                    let a = dec_u64(main_token as u64);
                    let b = dec_u64(graph.codebook_size as u64);
                    return Err(
                        InferError::Message(
                            String::from_str("semantic token ").concat(a.as_str()).concat(
                                " maps outside codebook_size ",
                            ).concat(b.as_str()),
                        ),
                    );
                }
                flat.push(code as i32);
            },
        }
    }
    while flat.len() < width
        invariant
            1 <= flat@.len() <= width,
            width == graph.num_codebooks + 1,
            want.len() == width,
            flat@ == want.take(flat@.len() as int),
            forall|k: int| flat@.len() <= k < width ==> #[trigger] want[k] == 0,
        decreases width - flat@.len(),
    {
        let ghost before = flat@;
        flat.push(0);
        assert(want.take(before.len() as int + 1) =~= want.take(before.len() as int).push(0));
    }
    assert(want.take(width as int) =~= want);
    Ok(flat)
}

// ---------------------------------------------------------------------
// Compacting
// ---------------------------------------------------------------------

/// The codes of the first `frames` frames out of a buffer with room for `room` of them.
pub open spec fn compacted(codes: Seq<i32>, books: nat, room: nat, frames: nat) -> Seq<i32> {
    if frames >= room {
        if books * frames <= codes.len() {
            codes.take((books * frames) as int)
        } else {
            codes
        }
    } else {
        Seq::new(
            books * frames,
            |k: int| codes[(k / frames as int) * room + k % frames as int],
        )
    }
}

/// Removes the room of frames that were not generated.
pub fn compact_codes(
    codes: &mut Vec<i32>,
    num_codebooks: u32,
    max_new_tokens: u32,
    n_frames: u32,
) -> (r: Result<(), InferError>)
    requires
        0 < n_frames < max_new_tokens && 0 < num_codebooks ==> old(codes)@.len() >= (num_codebooks
            - 1) * max_new_tokens + n_frames,
    ensures
        match r {
            Ok(_) => final(codes)@ == compacted(
                old(codes)@,
                num_codebooks as nat,
                max_new_tokens as nat,
                n_frames as nat,
            ),
            Err(e) => n_frames >= max_new_tokens && num_codebooks * n_frames > usize::MAX && e@
                == message("compacted codes size overflow"@) && final(codes)@ == old(codes)@,
        },
        n_frames < max_new_tokens ==> r is Ok,
        num_codebooks * n_frames <= usize::MAX ==> r is Ok,
{
    let books: usize = num_codebooks as usize;
    let frames: usize = n_frames as usize;
    let room: usize = max_new_tokens as usize;
    if n_frames >= max_new_tokens {
        match books.checked_mul(frames) {
            None => {
                return Err(InferError::text("compacted codes size overflow"));
            },
            Some(keep) => {
                codes.truncate(keep);
                assert(keep as nat == num_codebooks as nat * n_frames as nat);
                assert(codes@ =~= compacted(
                    old(codes)@,
                    num_codebooks as nat,
                    max_new_tokens as nat,
                    n_frames as nat,
                ));
                return Ok(());
            },
        }
    }
    let ghost want = compacted(codes@, books as nat, room as nat, frames as nat);
    let have: usize = codes.len();
    let mut out: Vec<i32> = Vec::new();
    let mut cb: usize = 0;
    assert(0 * frames as int == 0) by (nonlinear_arith);
    while cb < books
        invariant
            cb <= books,
            frames < room,
            have == codes@.len(),
            codes@ == old(codes)@,
            0 < frames && 0 < books ==> (books - 1) * room + frames <= have,
            want == compacted(codes@, books as nat, room as nat, frames as nat),
            out@.len() == cb * frames,
            want.len() == books * frames,
            out@ == want.take(out@.len() as int),
        decreases books - cb,
    {
        let mut t: usize = 0;
        while t < frames
            invariant
                t <= frames,
                cb < books,
                frames < room,
                have == codes@.len(),
                codes@ == old(codes)@,
                0 < frames ==> (books - 1) * room + frames <= have,
                want == compacted(codes@, books as nat, room as nat, frames as nat),
                out@.len() == cb * frames + t,
                want.len() == books * frames,
                out@ == want.take(out@.len() as int),
            decreases frames - t,
        {
            proof {
                lemma_cell(cb as int, books as int, t as int, room as int);
                lemma_cell(cb as int, books as int, t as int, frames as int);
                lemma_rows_monotone(cb as int, books - 1, room as int);
            }
            let ghost before = out@;
            let v: i32 = codes[cb * room + t];
            out.push(v);
            proof {
                let k = before.len() as int;
                assert(want[k] == v);
                assert(want.take(k + 1) =~= want.take(k).push(v));
            }
            t = t + 1;
        }
        proof {
            lemma_next_row(cb as int, frames as int);
        }
        cb = cb + 1;
    }
    assert(want.take(out@.len() as int) =~= want);
    *codes = out;
    Ok(())
}

/// Compacting keeps the code of every codebook in every generated frame.
pub proof fn compacting_keeps_codes(
    codes: Seq<i32>,
    books: nat,
    room: nat,
    frames: nat,
    cb: int,
    t: int,
)
    requires
        0 <= cb < books,
        0 <= t < frames <= room,
        codes.len() == books * room,
    ensures
        compacted(codes, books, room, frames).len() == books * frames,
        0 <= cb * frames + t < books * frames,
        compacted(codes, books, room, frames)[cb * frames + t] == codes[cb * room + t],
{
    lemma_cell(cb, books as int, t, frames as int);
    if frames == room {
        assert(books * frames == codes.len());
    }
}

// ---------------------------------------------------------------------
// The run that generates codes
// ---------------------------------------------------------------------

/// The code of a codebook in a frame; none where the frame has fewer codes.
pub open spec fn code_in(frame: Seq<u32>, cb: int) -> i32 {
    if 0 <= cb < frame.len() {
        frame[cb] as i32
    } else {
        0
    }
}

/// The buffer of frames, codebook by codebook, with room for `room` frames.
pub open spec fn code_table(frames: Seq<Seq<u32>>, books: nat, room: nat) -> Seq<i32> {
    Seq::new(
        books * room,
        |k: int|
            if k % (room as int) < frames.len() {
                code_in(frames[k % (room as int)], k / (room as int))
            } else {
                0
            },
    )
}

/// A run that generates codes frame by frame.
pub struct CodesRun {
    graph: DualArGraphSpec,
    im_end_id: u32,
    min_tokens: u32,
    max_new: u32,
    books: u32,
    prompt_cols: usize,
    codes: Vec<i32>,
    step_index: u32,
    frames: Ghost<Seq<Seq<u32>>>,
}

/// How many codebooks a run writes: at least one.
pub open spec fn books_of(g: DualArGraphSpec) -> u32 {
    if g.num_codebooks == 0 {
        1
    } else {
        g.num_codebooks
    }
}

/// What is wrong with the codes of a frame, if anything.
pub open spec fn frame_error(token: u32, ids: Seq<u32>, g: DualArGraphSpec) -> Option<ErrorView> {
    if exists|i: int| 0 <= i < ids.len() && i < books_of(g) && #[trigger] ids[i] > i32::MAX {
        Some(message("codebook id does not fit i32"@))
    } else {
        step_error(token, Some(ids), g)
    }
}

impl CodesRun {
    /// The codes of the frames generated so far.
    pub closed spec fn generated(&self) -> Seq<Seq<u32>> {
        self.frames@
    }

    /// The model that generates.
    pub closed spec fn model(&self) -> DualArGraphSpec {
        self.graph
    }

    /// How many frames may be generated.
    pub closed spec fn room(&self) -> u32 {
        self.max_new
    }

    /// The token that ends speech.
    pub closed spec fn end_token(&self) -> u32 {
        self.im_end_id
    }

    /// How many tokens there must be before speech may end.
    pub closed spec fn least(&self) -> u32 {
        self.min_tokens
    }

    /// How many columns the prompt has.
    pub closed spec fn prompt_width(&self) -> usize {
        self.prompt_cols
    }

    /// Whether the buffer holds exactly the frames generated so far.
    pub closed spec fn consistent(&self) -> bool {
        &&& self.books == books_of(self.graph)
        &&& self.frames@.len() == self.step_index
        &&& self.step_index <= self.max_new
        &&& self.books * self.max_new <= usize::MAX
        &&& self.codes@ == code_table(self.frames@, self.books as nat, self.max_new as nat)
    }

    /// A run that has generated nothing yet.
    pub fn new(
        graph: DualArGraphSpec,
        tokenizer: &S2TokenizerConfig,
        params: &GenerateParams,
        prompt_cols: usize,
    ) -> (r: Result<CodesRun, InferError>)
        ensures
            match r {
                Ok(run) => books_of(graph) * params.max_new_tokens <= usize::MAX
                    && run.consistent() && run.generated() == Seq::<Seq<u32>>::empty()
                    && run.model() == graph && run.room() == params.max_new_tokens
                    && run.end_token() == tokenizer.im_end_id && run.least()
                    == params.min_tokens_before_end && run.prompt_width() == prompt_cols,
                Err(e) => books_of(graph) * params.max_new_tokens > usize::MAX && e@ == message(
                    "codes buffer size overflow"@,
                ),
            },
    {
        let books: u32 = if graph.num_codebooks == 0 {
            1
        } else {
            graph.num_codebooks
        };
        let max_new: u32 = params.max_new_tokens;
        let size: usize = match (books as usize).checked_mul(max_new as usize) {
            None => {
                return Err(InferError::text("codes buffer size overflow"));
            },
            Some(n) => n,
        };
        let mut codes: Vec<i32> = Vec::new();
        let mut i: usize = 0;
        while i < size
            invariant
                i <= size,
                codes@.len() == i,
                forall|k: int| 0 <= k < i ==> codes@[k] == 0,
            decreases size - i,
        {
            codes.push(0);
            i = i + 1;
        }
        proof {
            let empty = code_table(Seq::empty(), books as nat, max_new as nat);
            assert(codes@ =~= empty) by {
                assert forall|k: int| 0 <= k < codes@.len() implies codes@[k] == empty[k] by {
                    lemma_place(k, books as int, max_new as int);
                }
            }
        }
        Ok(
            CodesRun {
                graph,
                im_end_id: tokenizer.im_end_id,
                min_tokens: params.min_tokens_before_end,
                max_new,
                books,
                prompt_cols,
                codes,
                step_index: 0,
                frames: Ghost(Seq::empty()),
            },
        )
    }

    /// The semantic code to generate the next frame from; none where the run is over: the token
    /// ends speech, or as many frames as allowed were generated.
    pub fn next_frame(&self, main_token: u32) -> (r: Option<u32>)
        requires
            self.consistent(),
        ensures
            r == (if main_token == self.end_token() || self.generated().len() >= self.room() {
                None
            } else {
                Some(semantic_code(main_token, self.model()))
            }),
    {
        if main_token == self.im_end_id || self.step_index >= self.max_new {
            return None;
        }
        Some(semantic_to_codebook_id(main_token, &self.graph))
    }

    /// Takes in the codes of the next frame, and gives the numbers that stand for the token in the
    /// next step.
    pub fn take_frame(&mut self, main_token: u32, codebooks: &[u32]) -> (r: Result<
        Vec<i32>,
        InferError,
    >)
        requires
            old(self).consistent(),
            old(self).generated().len() < old(self).room(),
            old(self).model().num_codebooks < u32::MAX,
            old(self).model().num_codebooks < usize::MAX,
        ensures
            final(self).model() == old(self).model(),
            final(self).room() == old(self).room(),
            final(self).end_token() == old(self).end_token(),
            final(self).least() == old(self).least(),
            final(self).prompt_width() == old(self).prompt_width(),
            match r {
                Ok(v) => frame_error(main_token, codebooks@, old(self).model()) is None
                    && final(self).consistent() && final(self).generated() == old(
                    self,
                ).generated().push(codebooks@) && v@ == step_input(
                    main_token,
                    Some(codebooks@),
                    old(self).model(),
                ),
                Err(e) => frame_error(main_token, codebooks@, old(self).model()) == Some(e@),
            },
    {
        let frame: usize = self.step_index as usize;
        let room: usize = self.max_new as usize;
        let books: usize = self.books as usize;
        let ghost old_codes = self.codes@;
        let ghost old_frames = self.frames@;
        let size: usize = self.codes.len();
        let mut cb: usize = 0;
        while cb < codebooks.len() && cb < books
            invariant
                cb <= codebooks@.len(),
                cb <= books,
                frame < room,
                size == books * room,
                books == books_of(old(self).graph),
                old_codes == old(self).codes@,
                old_codes.len() == size,
                *self == (CodesRun { codes: self.codes, ..*old(self) }),
                self.codes@.len() == size,
                forall|k: int| 0 <= k < cb ==> #[trigger] codebooks@[k] <= i32::MAX,
                forall|k: int|
                    0 <= k < size ==> #[trigger] self.codes@[k] == (if k % (room as int) == frame
                        && k / (room as int) < cb {
                        codebooks@[k / (room as int)] as i32
                    } else {
                        old_codes[k]
                    }),
            decreases codebooks@.len() - cb,
        {
            proof {
                lemma_cell(cb as int, books as int, frame as int, room as int);
                lemma_rows_monotone(cb as int, books as int, room as int);
            }
            let id: u32 = codebooks[cb];
            if id > i32::MAX as u32 {
                assert(codebooks@[cb as int] > i32::MAX);
                return Err(InferError::text("codebook id does not fit i32"));
            }
            let ghost before = self.codes@;
            let at: usize = cb * room + frame;
            self.codes.set(at, id as i32);
            proof {
                assert forall|k: int| 0 <= k < size implies #[trigger] self.codes@[k] == (if k
                    % (room as int) == frame && k / (room as int) < cb + 1 {
                    codebooks@[k / (room as int)] as i32
                } else {
                    old_codes[k]
                }) by {
                    lemma_place(k, books as int, room as int);
                    if k != at {
                        assert(self.codes@[k] == before[k]);
                    }
                }
            }
            cb = cb + 1;
        }
        let input = match build_step_input(main_token, Some(codebooks), &self.graph) {
            Err(e) => {
                return Err(e);
            },
            Ok(v) => v,
        };
        self.step_index = self.step_index + 1;
        self.frames = Ghost(old_frames.push(codebooks@));
        proof {
            let now = code_table(self.frames@, books as nat, room as nat);
            assert(self.codes@ =~= now) by {
                assert forall|k: int| 0 <= k < size implies self.codes@[k] == now[k] by {
                    lemma_place(k, books as int, room as int);
                    let t = k % (room as int);
                    let b = k / (room as int);
                    assert(old_codes[k] == code_table(old_frames, books as nat, room as nat)[k]);
                    if t == frame {
                        assert(self.frames@[t] == codebooks@);
                    }
                }
            }
        }
        Ok(input)
    }

    /// Whether the end of speech is still barred, given how far the model has come.
    pub fn blocks_end(&self, n_past: usize) -> (r: bool)
        requires
            self.consistent(),
        ensures
            r == bars_end(
                frames_seen(n_past, self.prompt_width(), self.generated().len()),
                self.least(),
            ),
    {
        let beyond: usize = n_past.saturating_sub(self.prompt_cols);
        blocks_im_end(beyond.saturating_add(self.step_index as usize), self.min_tokens)
    }

    /// The codes of all generated frames.
    pub fn finish(self, slow_ar_profile: SlowArDecodeProfile) -> (r: GenerateCodesResult)
        requires
            self.consistent(),
        ensures
            r.num_codebooks == books_of(self.model()),
            r.n_frames == self.generated().len(),
            r.slow_ar_profile == slow_ar_profile,
            r.codes@ == code_table(
                self.generated(),
                books_of(self.model()) as nat,
                self.generated().len(),
            ),
    {
        let mut codes = self.codes;
        let books: u32 = self.books;
        let n_frames: u32 = self.step_index;
        let ghost frames = self.frames@;
        let ghost start = codes@;
        proof {
            let m = self.max_new as int;
            assert(n_frames * books <= m * books) by (nonlinear_arith)
                requires
                    n_frames <= m,
            ;
            assert(books * n_frames == n_frames * books) by (nonlinear_arith);
            assert(books * m == m * books) by (nonlinear_arith);
            assert((books - 1) * m + m == books * m) by (nonlinear_arith);
        }
        let done = compact_codes(&mut codes, books, self.max_new, n_frames);
        assert(done is Ok);
        proof {
            let n = n_frames as int;
            let want = code_table(frames, books as nat, n as nat);
            assert(codes@ =~= want) by {
                assert(codes@.len() == books * n);
                assert forall|k: int| 0 <= k < codes@.len() implies codes@[k] == want[k] by {
                    lemma_place(k, books as int, n);
                    let cb = k / n;
                    let t = k % n;
                    compacting_keeps_codes(
                        start,
                        books as nat,
                        self.max_new as nat,
                        n as nat,
                        cb,
                        t,
                    );
                    lemma_cell(cb, books as int, t, self.max_new as int);
                }
            }
        }
        GenerateCodesResult { codes, num_codebooks: books, n_frames, slow_ar_profile }
    }
}

/// How many tokens count as generated: those behind the prompt, and the frames once more.
pub open spec fn frames_seen(n_past: usize, prompt_cols: usize, frames: nat) -> usize {
    let beyond = if n_past >= prompt_cols {
        n_past - prompt_cols
    } else {
        0
    };
    if beyond + frames > usize::MAX {
        usize::MAX
    } else {
        (beyond + frames) as usize
    }
}

/// In the result of a run, the code of codebook `cb` in frame `t` is the one that was taken in.
pub proof fn result_holds_the_frames(frames: Seq<Seq<u32>>, books: nat, cb: int, t: int)
    requires
        0 <= cb < books,
        0 <= t < frames.len(),
        cb < frames[t].len(),
    ensures
        0 <= cb * frames.len() + t < code_table(frames, books, frames.len()).len(),
        code_table(frames, books, frames.len())[cb * frames.len() + t] == frames[t][cb] as i32,
{
    lemma_cell(cb, books as int, t, frames.len() as int);
}

// ---------------------------------------------------------------------
// The run that generates semantic tokens only
// ---------------------------------------------------------------------

/// A run that generates semantic tokens.
pub struct SemanticRun {
    graph: DualArGraphSpec,
    im_end_id: u32,
    min_tokens: u32,
    max_new: u32,
    prompt_cols: usize,
    tokens: Vec<u32>,
}

impl SemanticRun {
    /// The tokens generated so far; the first one comes with the prompt.
    pub closed spec fn generated(&self) -> Seq<u32> {
        self.tokens@
    }

    /// The model that generates.
    pub closed spec fn model(&self) -> DualArGraphSpec {
        self.graph
    }

    /// How many tokens may be generated behind the first.
    pub closed spec fn room(&self) -> u32 {
        self.max_new
    }

    /// The token that ends speech.
    pub closed spec fn end_token(&self) -> u32 {
        self.im_end_id
    }

    /// How many tokens there must be before speech may end.
    pub closed spec fn least(&self) -> u32 {
        self.min_tokens
    }

    /// How many columns the prompt has.
    pub closed spec fn prompt_width(&self) -> usize {
        self.prompt_cols
    }

    /// A run with its first token.
    pub fn new(
        graph: DualArGraphSpec,
        tokenizer: &S2TokenizerConfig,
        params: &GenerateParams,
        prompt_cols: usize,
        first_token: u32,
    ) -> (r: SemanticRun)
        ensures
            r.generated() == seq![first_token],
            r.model() == graph,
            r.room() == params.max_new_tokens,
            r.end_token() == tokenizer.im_end_id,
            r.least() == params.min_tokens_before_end,
            r.prompt_width() == prompt_cols,
    {
        let mut tokens: Vec<u32> = Vec::new();
        tokens.push(first_token);
        assert(tokens@ =~= seq![first_token]);
        SemanticRun {
            graph,
            im_end_id: tokenizer.im_end_id,
            min_tokens: params.min_tokens_before_end,
            max_new: params.max_new_tokens,
            prompt_cols,
            tokens,
        }
    }

    /// The numbers that stand for the last token in the next step; none where the run is over.
    pub fn next_input(&self) -> (r: Option<Result<Vec<i32>, InferError>>)
        requires
            self.generated().len() > 0,
            1 <= self.model().num_codebooks < u32::MAX,
            self.model().num_codebooks < usize::MAX,
        ensures
            match r {
                None => self.generated().last() == self.end_token() || self.generated().len() - 1
                    >= self.room(),
                Some(input) => self.generated().last() != self.end_token()
                    && self.generated().len() - 1 < self.room() && (match input {
                    Ok(v) => step_error(self.generated().last(), None, self.model()) is None && v@
                        == step_input(self.generated().last(), None, self.model()),
                    Err(e) => step_error(self.generated().last(), None, self.model()) == Some(e@),
                }),
            },
    {
        let count: usize = self.tokens.len() - 1;
        let last: u32 = self.tokens[count];
        if last == self.im_end_id || count >= self.max_new as usize {
            return None;
        }
        Some(build_step_input(last, None, &self.graph))
    }

    /// Whether the end of speech is still barred, given how far the model has come.
    pub fn blocks_end(&self, n_past: usize) -> (r: bool)
        requires
            self.generated().len() > 0,
        ensures
            r == bars_end(
                frames_seen(n_past, self.prompt_width(), (self.generated().len() - 1) as nat),
                self.least(),
            ),
    {
        let beyond: usize = n_past.saturating_sub(self.prompt_cols);
        let before: usize = self.tokens.len().saturating_sub(1);
        blocks_im_end(beyond.saturating_add(before), self.min_tokens)
    }

    /// Takes in the next token.
    pub fn take_token(&mut self, token: u32)
        ensures
            final(self).generated() == old(self).generated().push(token),
            final(self).model() == old(self).model(),
            final(self).room() == old(self).room(),
            final(self).end_token() == old(self).end_token(),
            final(self).least() == old(self).least(),
            final(self).prompt_width() == old(self).prompt_width(),
    {
        self.tokens.push(token);
    }

    /// All tokens.
    pub fn finish(self) -> (r: GenerateSemanticResult)
        ensures
            r.token_ids@ == self.generated(),
    {
        GenerateSemanticResult { token_ids: self.tokens }
    }
}

} // verus!
