//! What turning text into sound, and sound into codes, comes to.
use crate::codec_coder::encoder_does;
use crate::codec_modules::encode_does;
use crate::error::ErrorView;
use crate::numeric::{Calc, Op};
use crate::pcm::sample_of;
use crate::pipeline::{
    asks_for, is_prompt, RustPipeline, RustSynthesisOptions, RustSynthesisResult,
};
use crate::prompt::{prompt_row, prompt_table, PromptBuildOptions, PromptTensor};
use crate::rvq_codes::CodecValues;
use crate::sampling::Relation;
use crate::speech::{Moment, Setting};
use crate::sums::part;
use crate::tokenizer::S2Tokenizer;
use crate::wav::wav_file;
use crate::waveform::{
    are_bits, are_latents_of, frames_of_sound, sound_does, CodecReferenceAudioResult,
    CodecReferenceEncoderValues,
};
use vstd::prelude::*;

verus! {

/// Whether values are frames of 1024, each of them the one that the codes at its time stand for.
pub open spec fn are_frames_of_codes<T: Copy, F: Fn(Op, T, T, T) -> T>(
    codes: Seq<i32>,
    n_frames: int,
    rvq: CodecValues<T>,
    calc: Calc<T, F>,
    latents: Seq<T>,
) -> bool {
    &&& latents.len() == n_frames * 1024
    &&& forall|f: int|
        0 <= f < n_frames ==> #[trigger] rvq.is_frame_of(
            codes,
            n_frames as nat,
            f,
            calc,
            part(latents, f * 1024, 1024),
        )
}

/// Codes become sound through the frames that they stand for. There is a code for every codebook and
/// every frame.
pub proof fn codes_sound_through_their_frames<T: Copy, F: Fn(Op, T, T, T) -> T>(
    p: RustPipeline<T>,
    codes: Seq<i32>,
    frames: u32,
    calc: Calc<T, F>,
    out: Seq<T>,
)
    requires
        p.sounds(codes, frames, calc, Ok(out)),
        p.graph.num_codebooks > 0,
    ensures
        p.graph.num_codebooks == p.rvq_weights.residual_quantizers@.len() + 1,
        codes.len() == p.graph.num_codebooks * frames,
        exists|latents: Seq<T>|
            #[trigger] are_frames_of_codes(codes, frames as int, p.rvq_weights, calc, latents)
                && sound_does(
                latents,
                frames,
                p.post_weights,
                p.upsample_weights@,
                p.decoder_weights,
                calc,
                Ok(out),
            ),
{
    let latents = choose|latents: Seq<T>|
        #[trigger] are_latents_of(codes, frames, p.rvq_weights, calc, latents) && sound_does(
            latents,
            frames,
            p.post_weights,
            p.upsample_weights@,
            p.decoder_weights,
            calc,
            Ok(out),
        );
    lemma_frames_of_codes(codes, frames, p.rvq_weights, calc, latents);
}

proof fn lemma_frames_of_codes<T: Copy, F: Fn(Op, T, T, T) -> T>(
    codes: Seq<i32>,
    frames: u32,
    rvq: CodecValues<T>,
    calc: Calc<T, F>,
    latents: Seq<T>,
)
    requires
        are_latents_of(codes, frames, rvq, calc, latents),
    ensures
        are_frames_of_codes(codes, frames as int, rvq, calc, latents),
{
    assert forall|f: int| 0 <= f < frames implies #[trigger] rvq.is_frame_of(
        codes,
        frames as nat,
        f,
        calc,
        part(latents, f * 1024, 1024),
    ) by {
        assert(crate::numeric::row(latents, f, 1024) =~= part(latents, f * 1024, 1024));
    }
}

/// The prompt of a request asks for the text of the request, with its reference where it has one.
pub proof fn prompts_ask_for_their_text(
    o: RustSynthesisOptions,
    graph: crate::graph::DualArGraphSpec,
    tokenizer: S2Tokenizer,
    t: PromptTensor,
)
    requires
        is_prompt(o, graph, tokenizer, t),
    ensures
        t.rows == graph.num_codebooks + 1,
        exists|p: PromptBuildOptions|
            {
                &&& p.text@ == o.text@
                &&& o.prompt_text is Some ==> p.prompt_text is Some && p.prompt_text->0@
                    == o.prompt_text->0@
                &&& o.prompt_text is None ==> p.prompt_text is None
                &&& o.prompt_codes is Some ==> p.prompt_codes is Some && *p.prompt_codes->0
                    == o.prompt_codes->0
                &&& o.prompt_codes is None ==> p.prompt_codes is None
                &&& *p.graph == graph
                &&& t.data@ == #[trigger] prompt_table(tokenizer.bpe(), tokenizer.ids(), p)
                &&& t.cols == prompt_row(tokenizer.bpe(), tokenizer.ids(), p).len()
            },
{
    let p = choose|p: PromptBuildOptions|
        {
            &&& #[trigger] asks_for(o, graph, p)
            &&& crate::prompt::prompt_error(p) is None
            &&& t.rows == graph.num_codebooks + 1
            &&& t.cols == prompt_row(tokenizer.bpe(), tokenizer.ids(), p).len()
            &&& t.data@ == prompt_table(tokenizer.bpe(), tokenizer.ids(), p)
        };
    assert(t.data@ == prompt_table(tokenizer.bpe(), tokenizer.ids(), p));
}

/// What is said for a request follows its prompt, by the request's own settings and seed, up to the
/// end token of the tokenizer.
pub proof fn requests_are_answered_by_their_prompt<
    T: Copy,
    F: Fn(Op, T, T, T) -> T,
    B: Fn(T) -> u32,
    G: Fn(Relation, T, T) -> bool,
>(
    p: RustPipeline<T>,
    options: RustSynthesisOptions,
    set: Setting<T, F, B, G>,
    frames: Seq<Seq<u32>>,
    last: Moment<T>,
)
    requires
        p.says(options, set, frames, last),
    ensures
        is_prompt(options, p.graph, p.tokenizer, set.prompt),
        set.graph == p.graph,
        set.end == p.tokenizer.ids().im_end_id,
        set.params.max_new_tokens == options.params.max_new_tokens,
        set.params.temperature == options.params.temperature,
        set.params.top_p == options.params.top_p,
        set.params.top_k == options.params.top_k,
        set.params.min_tokens_before_end == options.params.min_tokens_before_end,
        set.speaks(p.fast_weights, p.slow_state@, options.seed, frames, last),
{
}

/// The file of a result holds a sample for every value of its sound, 44100 of them in a second.
pub proof fn result_files_hold_the_sound<T: Copy, F: Fn(Op, T, T, T) -> T, H: Fn(T) -> u32>(
    r: RustSynthesisResult<T>,
    p: RustPipeline<T>,
    calc: Calc<T, F>,
    bits: H,
)
    requires
        r.is_sound(p, calc, bits),
    ensures
        p.sounds(r.codes.codes@, r.codes.n_frames, calc, Ok(r.waveform.samples@)),
        r.waveform.sample_rate == 44100,
        r.waveform.num_samples == r.waveform.samples@.len(),
        r.wav_bytes is None <==> 44 + 2 * r.waveform.samples@.len() > u32::MAX,
        r.wav_bytes is Some ==> exists|samples: Seq<i16>|
            #[trigger] are_samples_of(r.waveform.samples@, bits, samples) && r.wav_bytes->0@
                == wav_file(samples, 44100),
{
    if r.wav_bytes is Some {
        let found = choose|found: Seq<u32>|
            #[trigger] are_bits(r.waveform.samples@, bits, found) && r.wav_bytes->0@ == wav_file(
                crate::pcm::samples_of(found),
                44100,
            );
        lemma_samples_of(r.waveform.samples@, bits, found);
    }
}

/// Whether samples are those of values, each by the bits of its value.
#[verifier::opaque]
pub open spec fn are_samples_of<T, H: Fn(T) -> u32>(
    values: Seq<T>,
    bits: H,
    samples: Seq<i16>,
) -> bool {
    &&& samples.len() == values.len()
    &&& forall|i: int|
        0 <= i < samples.len() ==> is_sample_of(values[i], bits, #[trigger] samples[i])
}

/// Whether a sample is that of a value, by the bits of the value.
pub open spec fn is_sample_of<T, H: Fn(T) -> u32>(value: T, bits: H, sample: i16) -> bool {
    exists|b: u32| #[trigger] call_ensures(bits, (value,), b) && sample == sample_of(b)
}

proof fn lemma_samples_of<T, H: Fn(T) -> u32>(values: Seq<T>, bits: H, found: Seq<u32>)
    requires
        are_bits(values, bits, found),
    ensures
        are_samples_of(values, bits, crate::pcm::samples_of(found)),
{
    reveal(are_samples_of);
    let samples = crate::pcm::samples_of(found);
    assert forall|i: int| 0 <= i < samples.len() implies is_sample_of(
        values[i],
        bits,
        #[trigger] samples[i],
    ) by {
        assert(call_ensures(bits, (values[i],), found[i]));
    }
}

/// Sound becomes frames for the quantizers through the encoder, and then through what stands before
/// the quantizers.
pub proof fn sound_passes_encoder_and_stages<T: Copy, F: Fn(Op, T, T, T) -> T>(
    audio: Seq<T>,
    w: CodecReferenceEncoderValues<T>,
    calc: Calc<T, F>,
    frames: u32,
    out: Seq<T>,
)
    requires
        frames_of_sound(audio, w, calc, frames, Ok(out)),
    ensures
        exists|hidden: Seq<T>|
            #[trigger] encoder_does(audio, w.encoder, false, calc, Ok(hidden)) && encode_does(
                hidden,
                frames,
                w.quantizer_downsample@,
                w.quantizer_pre_module,
                calc,
                Ok(out),
            ),
{
    let m = choose|m: Result<Seq<T>, ErrorView>|
        #[trigger] encoder_does(audio, w.encoder, false, calc, m) && match m {
            Err(e) => Ok::<Seq<T>, ErrorView>(out) == Err::<Seq<T>, ErrorView>(e),
            Ok(hidden) => encode_does(
                hidden,
                frames,
                w.quantizer_downsample@,
                w.quantizer_pre_module,
                calc,
                Ok::<Seq<T>, ErrorView>(out),
            ),
        };
    assert(encoder_does(audio, w.encoder, false, calc, Ok::<Seq<T>, ErrorView>(m->Ok_0)));
}

/// The codes of a reference are those of its frames, codebook by codebook.
pub proof fn references_are_coded_frame_by_frame<
    T: Copy,
    F: Fn(Op, T, T, T) -> T,
    G: Fn(T, T) -> bool,
>(
    r: CodecReferenceAudioResult<T>,
    latents: Seq<T>,
    w: CodecReferenceEncoderValues<T>,
    calc: Calc<T, F>,
    exceeds: G,
    f: int,
)
    requires
        r.encodes(latents, w, calc, exceeds),
        0 <= f < r.quantizer_frames,
    ensures
        latents.len() == r.quantizer_frames * 1024,
        w.rvq.are_codes_of(
            Seq::new(
                w.rvq.residual_quantizers@.len() + 1,
                |c: int| r.codes@[c * r.quantizer_frames + f],
            ),
            part(latents, f * 1024, 1024),
            calc,
            exceeds,
            r.final_residual_l2@[f],
        ),
{
    let _ = r.final_residual_l2@[f];
    assert(crate::numeric::row(latents, f, 1024) =~= part(latents, f * 1024, 1024));
    assert(crate::rvq_codes::frame_codes(
        r.codes@,
        r.quantizer_frames as nat,
        f,
        w.rvq.count(),
    ) =~= Seq::new(
        w.rvq.residual_quantizers@.len() + 1,
        |c: int| r.codes@[c * r.quantizer_frames + f],
    ));
}

} // verus!
