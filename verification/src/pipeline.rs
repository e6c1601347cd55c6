//! From text to sound: a prompt, the codes that follow it, and the sound they stand for.
use crate::codec_coder_weights::{decoder_error, CodecDecoderF16Weights, CodecDecoderValues};
use crate::codec_registry::{codec_error, CodecTensorRegistry};
use crate::codec_weights::{
    module_error, quantizers_error, upsample_error, CodecF16Weights, CodecPostModuleF16Weights,
    CodecModuleValues, CodecStageValues, CodecUpsampleF16Weights,
};
use crate::error::{message, ErrorView, InferError};
use crate::fast_run::{
    are_layer_values, fast_head_error, fast_layer_errors, is_fast_layer_of, FastArValues,
    FastArWeights,
};
use crate::generate::{
    books_of, code_table, GenerateCodesResult, GenerateParams, SEVEN_TENTHS_BITS,
};
use crate::gguf::{tensors_inside, FileView, GgufFile};
use crate::graph::{
    accepted_shape_is_the_known_one, divides_by_no_heads, graph_of, DualArGraphSpec, FloatReadings,
};
use crate::numeric::{Calc, Op};
use crate::paths::{default_tokenizer_path, tokenizer_place};
use crate::prompt::{
    build_prompt, codes_are_there, prompt_error, prompt_row, prompt_table, PromptBuildOptions,
    PromptCodes, PromptTensor,
};
use crate::registry::{registry_error, TransformerTensorRegistry};
use crate::rvq_codes::CodecValues;
use crate::sampling::{can_judge, Judge, Relation, SeededRng};
use crate::sizes::{is_finding, or_else};
use crate::slow_sequence::first_of;
use crate::slow_state::{open_error, SlowArState, SlowStateView};
use crate::slow_weights::{are_values, is_tensor, wide_of};
use crate::speech::{generate_codes, Moment, Setting};
use crate::tensor::WideView;
use crate::tokenizer::S2Tokenizer;
use crate::pcm::samples_of;
use crate::wav::{pcm_to_wav, wav_file};
use crate::waveform::{
    are_bits, decode_waveform, to_bits, waveform_does, CodecReferenceAudioResult,
    CodecWaveformResult,
};
use vstd::prelude::*;
use vstd::string::*;

verus! {

// ---------------------------------------------------------------------
// What a pipeline is made of
// ---------------------------------------------------------------------

/// Which files a pipeline is loaded from.
#[derive(Debug)]
pub struct RustPipelineConfig {
    pub transformer_gguf: String,
    pub codec_gguf: String,
    pub tokenizer_path: String,
    pub max_seq_len: Option<usize>,
}

impl RustPipelineConfig {
    /// Two model files, with the usual tokenizer and room for as many tokens as the model can take.
    pub fn new(transformer_gguf: String, codec_gguf: String, root: &str) -> (r: RustPipelineConfig)
        ensures
            r.transformer_gguf@ == transformer_gguf@,
            r.codec_gguf@ == codec_gguf@,
            r.tokenizer_path@ == tokenizer_place(root@),
            r.max_seq_len is None,
    {
        RustPipelineConfig {
            transformer_gguf,
            codec_gguf,
            tokenizer_path: default_tokenizer_path(root),
            max_seq_len: None,
        }
    }

    /// The same with another tokenizer.
    pub fn with_tokenizer(self, tokenizer_path: String) -> (r: RustPipelineConfig)
        ensures
            r == (RustPipelineConfig { tokenizer_path, ..self }),
    {
        RustPipelineConfig {
            transformer_gguf: self.transformer_gguf,
            codec_gguf: self.codec_gguf,
            tokenizer_path,
            max_seq_len: self.max_seq_len,
        }
    }

    /// The same with room for so many tokens.
    pub fn with_max_seq_len(self, max_seq_len: usize) -> (r: RustPipelineConfig)
        ensures
            r == (RustPipelineConfig { max_seq_len: Some(max_seq_len), ..self }),
    {
        RustPipelineConfig {
            transformer_gguf: self.transformer_gguf,
            codec_gguf: self.codec_gguf,
            tokenizer_path: self.tokenizer_path,
            max_seq_len: Some(max_seq_len),
        }
    }

    /// What is wrong with the files, if anything: the first of them that is none.
    pub open spec fn files_error(&self, transformer: bool, codec: bool, tokenizer: bool) -> Option<
        ErrorView,
    > {
        or_else(
            file_error("transformer GGUF"@, transformer, self.transformer_gguf@),
            or_else(
                file_error("codec GGUF"@, codec, self.codec_gguf@),
                file_error("tokenizer"@, tokenizer, self.tokenizer_path@),
            ),
        )
    }

    /// Checks that all files are there.
    pub fn check_files(&self, transformer: bool, codec: bool, tokenizer: bool) -> (r: Result<
        (),
        InferError,
    >)
        ensures
            is_finding(r, self.files_error(transformer, codec, tokenizer)),
    {
        match require_file("transformer GGUF", transformer, self.transformer_gguf.as_str()) {
            Err(e) => {
                return Err(e);
            },
            Ok(_) => {},
        }
        match require_file("codec GGUF", codec, self.codec_gguf.as_str()) {
            Err(e) => {
                return Err(e);
            },
            Ok(_) => {},
        }
        require_file("tokenizer", tokenizer, self.tokenizer_path.as_str())
    }
}

/// What is wrong with a file, if anything.
pub open spec fn file_error(what: Seq<char>, is_file: bool, path: Seq<char>) -> Option<ErrorView> {
    if is_file {
        None
    } else {
        Some(message(what + " not found: "@ + path))
    }
}

/// Checks that a file is there.
pub fn require_file(kind: &str, is_file: bool, path: &str) -> (r: Result<(), InferError>)
    ensures
        is_finding(r, file_error(kind@, is_file, path@)),
{
    if is_file {
        return Ok(());
    }
    Err(InferError::Message(String::from_str(kind).concat(" not found: ").concat(path)))
}

/// What is wrong with a reference voice, if anything.
pub open spec fn pair_error(text: bool, codes: bool) -> Option<ErrorView> {
    if text == codes {
        None
    } else {
        Some(message("prompt_text and prompt_codes must both be set or both omitted"@))
    }
}

/// Checks that a reference voice has both parts or none.
pub fn validate_prompt_pair(prompt_text: Option<&str>, prompt_codes: Option<&PromptCodes>) -> (r:
    Result<(), InferError>)
    ensures
        is_finding(r, pair_error(prompt_text is Some, prompt_codes is Some)),
{
    match (prompt_text, prompt_codes) {
        (Some(_), Some(_)) => Ok(()),
        (None, None) => Ok(()),
        _ => Err(
            InferError::text("prompt_text and prompt_codes must both be set or both omitted"),
        ),
    }
}

/// The codes of a voice, as a prompt holds them.
pub open spec fn as_prompt_codes(codes: Seq<i32>) -> Seq<u32> {
    codes.map_values(|c: i32| c as u32)
}

/// The codes of sound that a voice was taken from, as a prompt holds them.
pub fn reference_prompt_codes<T>(found: &CodecReferenceAudioResult<T>) -> (r: PromptCodes)
    requires
        forall|i: int| 0 <= i < found.codes@.len() ==> #[trigger] found.codes@[i] >= 0,
    ensures
        r.num_codebooks == found.num_codebooks,
        r.cols == found.quantizer_frames,
        r.data@ == as_prompt_codes(found.codes@),
{
    let mut data: Vec<u32> = Vec::new();
    let mut i: usize = 0;
    while i < found.codes.len()
        invariant
            i <= found.codes@.len(),
            forall|k: int| 0 <= k < found.codes@.len() ==> #[trigger] found.codes@[k] >= 0,
            data@.len() == i,
            forall|k: int| 0 <= k < i ==> #[trigger] data@[k] == found.codes@[k] as u32,
        decreases found.codes@.len() - i,
    {
        let c: i32 = found.codes[i];
        data.push(c as u32);
        i = i + 1;
    }
    assert(data@ =~= as_prompt_codes(found.codes@));
    PromptCodes {
        num_codebooks: found.num_codebooks,
        cols: found.quantizer_frames as usize,
        data,
    }
}

// ---------------------------------------------------------------------
// What is to be spoken
// ---------------------------------------------------------------------

/// What is to be spoken, after which voice, and how.
#[derive(Debug)]
pub struct RustSynthesisOptions {
    pub text: String,
    pub prompt_text: Option<String>,
    pub prompt_codes: Option<PromptCodes>,
    pub params: GenerateParams,
    pub seed: u64,
}

impl RustSynthesisOptions {
    /// A text, spoken after no voice and in the usual way.
    pub fn new(text: String) -> (r: RustSynthesisOptions)
        ensures
            r.text@ == text@,
            r.prompt_text is None,
            r.prompt_codes is None,
            r.params == (GenerateParams {
                max_new_tokens: 512,
                temperature: SEVEN_TENTHS_BITS,
                top_p: SEVEN_TENTHS_BITS,
                top_k: 30,
                min_tokens_before_end: 64,
            }),
            r.seed == 0,
    {
        RustSynthesisOptions {
            text,
            prompt_text: None,
            prompt_codes: None,
            params: GenerateParams::default(),
            seed: 0,
        }
    }

    /// The same after a voice.
    pub fn with_reference(self, prompt_text: String, prompt_codes: PromptCodes) -> (r:
        RustSynthesisOptions)
        ensures
            r == (RustSynthesisOptions {
                prompt_text: Some(prompt_text),
                prompt_codes: Some(prompt_codes),
                ..self
            }),
    {
        RustSynthesisOptions {
            text: self.text,
            prompt_text: Some(prompt_text),
            prompt_codes: Some(prompt_codes),
            params: self.params,
            seed: self.seed,
        }
    }

    /// The same in another way.
    pub fn with_params(self, params: GenerateParams) -> (r: RustSynthesisOptions)
        ensures
            r == (RustSynthesisOptions { params, ..self }),
    {
        RustSynthesisOptions {
            text: self.text,
            prompt_text: self.prompt_text,
            prompt_codes: self.prompt_codes,
            params,
            seed: self.seed,
        }
    }

    /// The same with other random numbers.
    pub fn with_seed(self, seed: u64) -> (r: RustSynthesisOptions)
        ensures
            r == (RustSynthesisOptions { seed, ..self }),
    {
        RustSynthesisOptions {
            text: self.text,
            prompt_text: self.prompt_text,
            prompt_codes: self.prompt_codes,
            params: self.params,
            seed,
        }
    }
}

// ---------------------------------------------------------------------
// The pipeline
// ---------------------------------------------------------------------

/// All that is needed to turn text into sound.
pub struct RustPipeline<T> {
    pub tokenizer: S2Tokenizer,
    pub graph: DualArGraphSpec,
    pub slow_state: SlowArState<T>,
    pub fast_weights: FastArValues<T>,
    pub rvq_weights: CodecValues<T>,
    pub post_weights: CodecModuleValues<T>,
    pub upsample_weights: Vec<CodecStageValues<T>>,
    pub decoder_weights: CodecDecoderValues<T>,
}

/// How many tokens there is room for.
pub open spec fn room_of(max_seq_len: Option<usize>) -> usize {
    match max_seq_len {
        Some(n) => n,
        None => 32768,
    }
}

/// What is wrong with loading a pipeline, if anything.
pub open spec fn pipeline_error(
    transformer: FileView,
    transformer_bytes: Seq<u8>,
    floats: FloatReadings,
    codec: FileView,
    codec_bytes: Seq<u8>,
    max_seq_len: Option<usize>,
) -> Option<ErrorView> {
    or_else(
        open_error(transformer, transformer_bytes, floats, room_of(max_seq_len)),
        or_else(
            fast_error(transformer, transformer_bytes),
            codec_side_error(codec, codec_bytes),
        ),
    )
}

/// What is wrong with the weights of a file that turn codes into sound, if anything.
pub open spec fn codec_side_error(f: FileView, file: Seq<u8>) -> Option<ErrorView> {
    or_else(
        codec_error(f),
        or_else(
            quantizers_error(f, file),
            or_else(
                module_error(f, file, "quantizer.post_module"@),
                or_else(upsample_error(f, file), decoder_error(f, file)),
            ),
        ),
    )
}

/// The weights that turn codes into sound, as values.
pub struct SoundWeights<T> {
    pub rvq: CodecValues<T>,
    pub post: CodecModuleValues<T>,
    pub upsample: Vec<CodecStageValues<T>>,
    pub decoder: CodecDecoderValues<T>,
}

impl<T: Copy> SoundWeights<T> {
    /// Whether the weights are those of a file.
    pub open spec fn come_from<F: Fn(Op, T, T, T) -> T>(
        &self,
        f: FileView,
        file: Seq<u8>,
        calc: Calc<T, F>,
    ) -> bool {
        &&& exists|w: CodecF16Weights|
            #[trigger] w.are_of(f, file) && self.rvq.come_from(w, calc)
        &&& exists|w: CodecPostModuleF16Weights|
            #[trigger] w.are_of(f, file) && self.post.come_from(w.layers@, w.norm_weight, calc)
        &&& exists|w: CodecUpsampleF16Weights|
            {
                &&& #[trigger] w.are_of(f, file)
                &&& self.upsample@.len() == w.stages@.len()
                &&& forall|i: int|
                    0 <= i < w.stages@.len() ==> (
                    #[trigger] self.upsample@[i]).come_from_upsample_stage(
                        w.stages@[i],
                        calc,
                    )
            }
        &&& exists|w: CodecDecoderF16Weights|
            #[trigger] w.are_of(f, file) && self.decoder.come_from(w, calc)
    }

    /// The weights of a file.
    pub fn load<F: Fn(Op, T, T, T) -> T>(
        codec: &GgufFile,
        codec_bytes: &[u8],
        calc: &Calc<T, F>,
    ) -> (r: Result<SoundWeights<T>, InferError>)
        requires
            calc.works(),
            tensors_inside(codec@),
        ensures
            match r {
                Ok(v) => {
                    &&& codec_side_error(codec@, codec_bytes@) is None
                    &&& v.come_from(codec@, codec_bytes@, *calc)
                    &&& v.rvq.count() == 10
                },
                Err(e) => codec_side_error(codec@, codec_bytes@) == Some(e@),
            },
    {
        let registry = match CodecTensorRegistry::from_gguf(codec) {
            Err(e) => {
                return Err(e);
            },
            Ok(v) => v,
        };
        let rvq = match CodecF16Weights::from_gguf_registry(codec, codec_bytes, &registry) {
            Err(e) => {
                return Err(e);
            },
            Ok(v) => v,
        };
        let post = match CodecPostModuleF16Weights::from_gguf_registry(codec, codec_bytes, &registry) {
            Err(e) => {
                return Err(e);
            },
            Ok(v) => v,
        };
        let upsample = match CodecUpsampleF16Weights::from_gguf_registry(
            codec,
            codec_bytes,
            &registry,
        ) {
            Err(e) => {
                return Err(e);
            },
            Ok(v) => v,
        };
        let decoder = match CodecDecoderF16Weights::from_gguf(codec, codec_bytes) {
            Err(e) => {
                return Err(e);
            },
            Ok(v) => v,
        };
        assert(rvq.are_of(codec@, codec_bytes@));
        assert(post.are_of(codec@, codec_bytes@));
        assert(upsample.are_of(codec@, codec_bytes@));
        assert(decoder.are_of(codec@, codec_bytes@));
        Ok(
            SoundWeights {
                rvq: rvq.values(calc),
                post: post.values(calc),
                upsample: upsample.values(calc),
                decoder: decoder.values(calc),
            },
        )
    }
}

/// Whether the values of a fast transformer are those of a file.
pub open spec fn fast_values_from<T: Copy, F: Fn(Op, T, T, T) -> T>(
    v: FastArValues<T>,
    f: FileView,
    file: Seq<u8>,
    calc: Calc<T, F>,
) -> bool {
    exists|w: FastArWeights|
        {
            &&& #[trigger] is_fast_of(w, f, file)
            &&& are_values(w.head.embeddings@.values, calc, v.embeddings@)
            &&& are_values(w.head.norm@.values, calc, v.norm@)
            &&& are_values(w.head.output@.values, calc, v.output@)
            &&& v.layers@.len() == 4
            &&& forall|i: int|
                0 <= i < 4 ==> are_layer_values(w.layers@[i], calc, #[trigger] v.layers@[i])
        }
}

/// Whether the weights of a fast transformer are those of a file.
pub open spec fn is_fast_of(w: FastArWeights, f: FileView, file: Seq<u8>) -> bool {
    &&& w.layers@.len() == 4
    &&& forall|i: int|
        0 <= i < 4 ==> is_fast_layer_of(#[trigger] w.layers@[i], f, file, i as usize)
    &&& is_tensor(w.head.embeddings, f, file, "fast_embeddings.weight"@)
    &&& is_tensor(w.head.norm, f, file, "fast_norm.weight"@)
    &&& is_tensor(w.head.output, f, file, "fast_output.weight"@)
}

fn load_fast<T: Copy, F: Fn(Op, T, T, T) -> T>(
    gguf: &GgufFile,
    file: &[u8],
    floats: &FloatReadings,
    calc: &Calc<T, F>,
) -> (r: Result<FastArValues<T>, InferError>)
    requires
        calc.works(),
        tensors_inside(gguf@),
        !divides_by_no_heads(gguf@.metadata),
        registry_error(gguf@, *floats) is None,
    ensures
        match r {
            Ok(v) => fast_error(gguf@, file@) is None && fast_values_from(v, gguf@, file@, *calc),
            Err(e) => fast_error(gguf@, file@) == Some(e@),
        },
{
    match TransformerTensorRegistry::from_gguf(gguf, floats) {
        Err(e) => {
            assert(false);
            Err(e)
        },
        Ok(registry) => match FastArWeights::from_gguf(gguf, file, &registry) {
            Err(e) => Err(e),
            Ok(w) => {
                assert(is_fast_of(w, gguf@, file@));
                Ok(w.values(calc))
            },
        },
    }
}

/// What is wrong with the fast transformer of a file, if anything.
pub open spec fn fast_error(f: FileView, file: Seq<u8>) -> Option<ErrorView> {
    or_else(first_of(fast_layer_errors(f, file), 0, 4), fast_head_error(f, file))
}

impl<T: Copy> RustPipeline<T> {
    /// Whether the parts belong to one model and can work.
    pub open spec fn ready(&self) -> bool {
        &&& self.slow_state.ready()
        &&& self.slow_state@.graph == self.graph
        &&& self.graph.num_codebooks < u32::MAX
        &&& self.graph.num_codebooks < usize::MAX
        &&& self.rvq_weights.count() <= u32::MAX
    }

    /// The pipeline of two model files and a tokenizer.
    pub fn load<F: Fn(Op, T, T, T) -> T>(
        tokenizer: S2Tokenizer,
        transformer: GgufFile,
        transformer_bytes: &[u8],
        floats: &FloatReadings,
        codec: &GgufFile,
        codec_bytes: &[u8],
        max_seq_len: Option<usize>,
        calc: &Calc<T, F>,
    ) -> (r: Result<RustPipeline<T>, InferError>)
        requires
            calc.works(),
            tensors_inside(transformer@),
            tensors_inside(codec@),
            !divides_by_no_heads(transformer@.metadata),
        ensures
            match r {
                Ok(p) => {
                    &&& pipeline_error(
                        transformer@,
                        transformer_bytes@,
                        *floats,
                        codec@,
                        codec_bytes@,
                        max_seq_len,
                    ) is None
                    &&& p.ready()
                    &&& p.tokenizer == tokenizer
                    &&& p.slow_state@.file == transformer@
                    &&& p.slow_state@.n_past == 0
                    &&& p.slow_state@.max_seq_len == room_of(max_seq_len)
                    &&& graph_of(transformer@.metadata, *floats) == Ok::<
                        DualArGraphSpec,
                        ErrorView,
                    >(p.graph)
                    &&& wide_of(transformer@, transformer_bytes@, "embeddings.weight"@) == Ok::<
                        WideView,
                        ErrorView,
                    >(p.slow_state@.semantic)
                    &&& wide_of(transformer@, transformer_bytes@, "codebook_embeddings.weight"@)
                        == Ok::<WideView, ErrorView>(p.slow_state@.codebook)
                    &&& wide_of(transformer@, transformer_bytes@, "norm.weight"@) == Ok::<
                        WideView,
                        ErrorView,
                    >(p.slow_state@.norm)
                    &&& fast_values_from(
                        p.fast_weights,
                        transformer@,
                        transformer_bytes@,
                        *calc,
                    )
                    &&& (SoundWeights {
                        rvq: p.rvq_weights,
                        post: p.post_weights,
                        upsample: p.upsample_weights,
                        decoder: p.decoder_weights,
                    }).come_from(codec@, codec_bytes@, *calc)
                    &&& p.rvq_weights.count() == 10
                },
                Err(e) => pipeline_error(
                    transformer@,
                    transformer_bytes@,
                    *floats,
                    codec@,
                    codec_bytes@,
                    max_seq_len,
                ) == Some(e@),
            },
    {
        let room: usize = match max_seq_len {
            Some(n) => n,
            None => 32768,
        };
        let slow_state = match SlowArState::open(
            transformer,
            transformer_bytes,
            floats,
            room,
            calc.zero,
        ) {
            Err(e) => {
                return Err(e);
            },
            Ok(s) => s,
        };
        let graph: DualArGraphSpec = *slow_state.graph_spec();
        proof {
            accepted_shape_is_the_known_one(graph, *floats);
        }
        let fast_weights = match load_fast(slow_state.gguf(), transformer_bytes, floats, calc) {
            Err(e) => {
                return Err(e);
            },
            Ok(v) => v,
        };
        let sound = match SoundWeights::load(codec, codec_bytes, calc) {
            Err(e) => {
                return Err(e);
            },
            Ok(v) => v,
        };
        Ok(
            RustPipeline {
                tokenizer,
                graph,
                slow_state,
                fast_weights,
                rvq_weights: sound.rvq,
                post_weights: sound.post,
                upsample_weights: sound.upsample,
                decoder_weights: sound.decoder,
            },
        )
    }

    /// What the model is like.
    pub fn graph_spec(&self) -> (r: &DualArGraphSpec)
        ensures
            *r == self.graph,
    {
        &self.graph
    }
}

/// Spoken text.
#[derive(Debug)]
pub struct RustSynthesisResult<T> {
    pub codes: GenerateCodesResult,
    pub waveform: CodecWaveformResult<T>,
    /// The sound as a file; none where it is longer than the header of a file can tell.
    pub wav_bytes: Option<Vec<u8>>,
}

/// The options of a prompt.
pub open spec fn asks_for<'a>(
    o: RustSynthesisOptions,
    graph: DualArGraphSpec,
    p: PromptBuildOptions<'a>,
) -> bool {
    &&& p.text@ == o.text@
    &&& match o.prompt_text {
        None => p.prompt_text is None,
        Some(t) => p.prompt_text matches Some(u) && u@ == t@,
    }
    &&& match o.prompt_codes {
        None => p.prompt_codes is None,
        Some(c) => p.prompt_codes matches Some(d) && *d == c,
    }
    &&& *p.graph == graph
}

/// Whether every prompt for these options can be built: its codes are as many as they say, and its
/// table fits into memory.
pub open spec fn can_be_asked(
    o: RustSynthesisOptions,
    graph: DualArGraphSpec,
    tokenizer: S2Tokenizer,
) -> bool {
    forall|p: PromptBuildOptions|
        #[trigger] asks_for(o, graph, p) ==> codes_are_there(p) && prompt_row(
            tokenizer.bpe(),
            tokenizer.ids(),
            p,
        ).len() * (graph.num_codebooks + 1) <= usize::MAX
}

/// Whether this is the prompt for some options.
pub open spec fn is_prompt(
    o: RustSynthesisOptions,
    graph: DualArGraphSpec,
    tokenizer: S2Tokenizer,
    t: PromptTensor,
) -> bool {
    exists|p: PromptBuildOptions|
        {
            &&& #[trigger] asks_for(o, graph, p)
            &&& prompt_error(p) is None
            &&& t.rows == graph.num_codebooks + 1
            &&& t.cols == prompt_row(tokenizer.bpe(), tokenizer.ids(), p).len()
            &&& t.data@ == prompt_table(tokenizer.bpe(), tokenizer.ids(), p)
        }
}

/// What is wrong with the prompt for some options.
pub open spec fn prompt_fails(o: RustSynthesisOptions, graph: DualArGraphSpec, e: ErrorView) -> bool {
    exists|p: PromptBuildOptions|
        #[trigger] asks_for(o, graph, p) && or_else(
            pair_error(o.prompt_text is Some, o.prompt_codes is Some),
            prompt_error(p),
        ) == Some(e)
}

/// A run that ends has no more frames than there is room for.
proof fn lemma_frames_have_room<
    T: Copy,
    F: Fn(Op, T, T, T) -> T,
    B: Fn(T) -> u32,
    G: Fn(Relation, T, T) -> bool,
>(
    set: Setting<T, F, B, G>,
    weights: FastArValues<T>,
    s: SlowStateView<T>,
    rng: u64,
    frames: Seq<Seq<u32>>,
    last: Moment<T>,
)
    requires
        set.speaks(weights, s, rng, frames, last),
    ensures
        frames.len() <= set.params.max_new_tokens,
{
    let (bias, moments) = choose|bias: Seq<T>, moments: Seq<Moment<T>>|
        {
            &&& #[trigger] set.frames_lead(weights, bias, frames, moments)
            &&& set.starts(s, rng, bias, moments[0])
            &&& moments.last() == last
            &&& !set.goes_on(last, frames.len())
        };
    if frames.len() > 0 {
        let i = frames.len() - 1;
        assert(set.frame_leads(weights, bias, i as nat, moments[i], frames[i], moments[i + 1]));
    }
}

impl<T: Copy> RustPipeline<T> {
    /// What is done to codes: they become sound by the weights of the pipeline.
    pub open spec fn sounds<F: Fn(Op, T, T, T) -> T>(
        &self,
        codes: Seq<i32>,
        frames: u32,
        calc: Calc<T, F>,
        r: Result<Seq<T>, ErrorView>,
    ) -> bool {
        waveform_does(
            codes,
            books_of(self.graph),
            frames,
            self.rvq_weights,
            self.post_weights,
            self.upsample_weights@,
            self.decoder_weights,
            calc,
            r,
        )
    }

    /// Whether a prompt leads to these frames.
    pub open spec fn says<
        F: Fn(Op, T, T, T) -> T,
        B: Fn(T) -> u32,
        G: Fn(Relation, T, T) -> bool,
    >(
        &self,
        options: RustSynthesisOptions,
        set: Setting<T, F, B, G>,
        frames: Seq<Seq<u32>>,
        last: Moment<T>,
    ) -> bool {
        &&& is_prompt(options, self.graph, self.tokenizer, set.prompt)
        &&& set.graph == self.graph
        &&& set.end == self.tokenizer.ids().im_end_id
        &&& set.params == options.params
        &&& set.speaks(self.fast_weights, self.slow_state@, options.seed, frames, last)
    }

    /// How text can fail to become sound: in its prompt, in the codes that follow it, or in the
    /// sound that these stand for.
    pub open spec fn synthesis_fails<
        F: Fn(Op, T, T, T) -> T,
        B: Fn(T) -> u32,
        G: Fn(Relation, T, T) -> bool,
    >(
        &self,
        options: RustSynthesisOptions,
        file: Seq<u8>,
        base_text: Seq<char>,
        calc: Calc<T, F>,
        judge: Judge<B, G>,
        e: ErrorView,
    ) -> bool {
        ||| prompt_fails(options, self.graph, e)
        ||| exists|set: Setting<T, F, B, G>|
            {
                &&& is_prompt(options, self.graph, self.tokenizer, set.prompt)
                &&& set == self.setting(options, file, base_text, calc, judge, set.prompt)
                &&& #[trigger] set.speech_fails(
                    self.fast_weights,
                    self.slow_state@,
                    options.seed,
                    e,
                )
            }
        ||| exists|set: Setting<T, F, B, G>, frames: Seq<Seq<u32>>, last: Moment<T>|
            {
                &&& #[trigger] self.says(options, set, frames, last)
                &&& set == self.setting(options, file, base_text, calc, judge, set.prompt)
                &&& self.sounds(
                    code_table(frames, books_of(self.graph) as nat, frames.len()),
                    frames.len() as u32,
                    calc,
                    Err(e),
                )
            }
    }

    /// What stays the same while a prompt is answered.
    pub open spec fn setting<
        F: Fn(Op, T, T, T) -> T,
        B: Fn(T) -> u32,
        G: Fn(Relation, T, T) -> bool,
    >(
        &self,
        options: RustSynthesisOptions,
        file: Seq<u8>,
        base_text: Seq<char>,
        calc: Calc<T, F>,
        judge: Judge<B, G>,
        prompt: PromptTensor,
    ) -> Setting<T, F, B, G> {
        Setting {
            file,
            base_text,
            graph: self.graph,
            end: self.tokenizer.ids().im_end_id,
            params: options.params,
            prompt,
            calc,
            judge,
        }
    }

    /// Turns text into sound.
    pub fn synthesize<
        F: Fn(Op, T, T, T) -> T,
        B: Fn(T) -> u32,
        G: Fn(Relation, T, T) -> bool,
        H: Fn(T) -> u32,
    >(
        &mut self,
        transformer_bytes: &[u8],
        options: &RustSynthesisOptions,
        base_text: &str,
        calc: &Calc<T, F>,
        judge: &Judge<B, G>,
        bits: &H,
    ) -> (r: Result<RustSynthesisResult<T>, InferError>)
        requires
            old(self).ready(),
            old(self).decoder_weights.usable(),
            calc.works(),
            can_judge::<T, B, G>(*judge),
            forall|a: T| call_requires(*bits, (a,)),
            can_be_asked(*options, old(self).graph, old(self).tokenizer),
            options.params.max_new_tokens * 1024 <= usize::MAX,
        ensures
            final(self).ready(),
            *final(self) == (RustPipeline { slow_state: final(self).slow_state, ..*old(self) }),
            match r {
                Ok(v) => exists|
                    set: Setting<T, F, B, G>,
                    frames: Seq<Seq<u32>>,
                    last: Moment<T>,
                |
                    {
                        &&& #[trigger] old(self).says(*options, set, frames, last)
                        &&& set == old(self).setting(
                            *options,
                            transformer_bytes@,
                            base_text@,
                            *calc,
                            *judge,
                            set.prompt,
                        )
                        &&& final(self).slow_state@ == last.state
                        &&& v.codes.n_frames == frames.len()
                        &&& v.codes.num_codebooks == books_of(old(self).graph)
                        &&& v.codes.codes@ == code_table(
                            frames,
                            books_of(old(self).graph) as nat,
                            frames.len(),
                        )
                        &&& v.is_sound(*old(self), *calc, *bits)
                    },
                Err(e) => old(self).synthesis_fails(
                    *options,
                    transformer_bytes@,
                    base_text@,
                    *calc,
                    *judge,
                    e@,
                ),
            },
    {
        let prompt_text: Option<&str> = match &options.prompt_text {
            None => None,
            Some(t) => Some(t.as_str()),
        };
        let prompt_codes: Option<&PromptCodes> = match &options.prompt_codes {
            None => None,
            Some(c) => Some(c),
        };
        let asked = PromptBuildOptions {
            text: options.text.as_str(),
            prompt_text,
            prompt_codes,
            graph: &self.graph,
        };
        assert(asks_for(*options, old(self).graph, asked));
        match validate_prompt_pair(prompt_text, prompt_codes) {
            Err(e) => {
                return Err(e);
            },
            Ok(_) => {},
        }
        let prompt = match build_prompt(&self.tokenizer, asked) {
            Err(e) => {
                return Err(e);
            },
            Ok(p) => p,
        };
        assert(is_prompt(*options, old(self).graph, old(self).tokenizer, prompt));
        let ghost set = self.setting(
            *options,
            transformer_bytes@,
            base_text@,
            *calc,
            *judge,
            prompt,
        );
        let mut rng = SeededRng::new(options.seed);
        let graph: DualArGraphSpec = self.graph;
        let ids = self.tokenizer.config();
        let codes = match generate_codes(
            &mut self.slow_state,
            transformer_bytes,
            &ids,
            &graph,
            &prompt,
            &options.params,
            &self.fast_weights,
            &mut rng,
            base_text,
            calc,
            judge,
        ) {
            Err(e) => {
                assert(set.speech_fails(
                    old(self).fast_weights,
                    old(self).slow_state@,
                    options.seed,
                    e@,
                ));
                return Err(e);
            },
            Ok(v) => v,
        };
        let ghost (frames, last) = choose|frames: Seq<Seq<u32>>, last: Moment<T>|
            {
                &&& #[trigger] set.speaks(
                    old(self).fast_weights,
                    old(self).slow_state@,
                    options.seed,
                    frames,
                    last,
                )
                &&& self.slow_state@ == last.state
                &&& codes.num_codebooks == books_of(graph)
                &&& codes.n_frames == frames.len()
                &&& codes.codes@ == code_table(frames, books_of(graph) as nat, frames.len())
            };
        proof {
            lemma_frames_have_room(
                set,
                old(self).fast_weights,
                old(self).slow_state@,
                options.seed,
                frames,
                last,
            );
            assert(old(self).says(*options, set, frames, last));
        }
        let waveform = match decode_waveform(
            codes.codes.as_slice(),
            codes.num_codebooks,
            codes.n_frames,
            &self.rvq_weights,
            &self.post_weights,
            &self.upsample_weights,
            &self.decoder_weights,
            calc,
        ) {
            Err(e) => {
                return Err(e);
            },
            Ok(w) => w,
        };
        let wav_bytes: Option<Vec<u8>> = if waveform.samples.len() as u64 > 2147483625 {
            None
        } else {
            let found = to_bits(waveform.samples.as_slice(), bits);
            Some(pcm_to_wav(found.as_slice(), waveform.sample_rate))
        };
        Ok(RustSynthesisResult { codes, waveform, wav_bytes })
    }
}

impl<T: Copy> RustSynthesisResult<T> {
    /// Whether the sound is that of the codes, and the file that of the sound.
    pub open spec fn is_sound<F: Fn(Op, T, T, T) -> T, H: Fn(T) -> u32>(
        &self,
        p: RustPipeline<T>,
        calc: Calc<T, F>,
        bits: H,
    ) -> bool {
        &&& p.sounds(
            self.codes.codes@,
            self.codes.n_frames,
            calc,
            Ok(self.waveform.samples@),
        )
        &&& self.waveform.sample_rate == 44100
        &&& self.waveform.num_samples == self.waveform.samples@.len()
        &&& match self.wav_bytes {
            None => 44 + 2 * self.waveform.samples@.len() > u32::MAX,
            Some(bytes) => 44 + 2 * self.waveform.samples@.len() <= u32::MAX && exists|
                found: Seq<u32>,
            |
                #[trigger] are_bits(self.waveform.samples@, bits, found) && bytes@ == wav_file(
                    samples_of(found),
                    44100,
                ),
        }
    }
}

} // verus!
