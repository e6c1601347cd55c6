//! What the arguments of each program come to.
use crate::cli::{
    backend_given, flags_from, float_given, number_given, read_flags, signed_given, switch_given,
    text_given, FlagId, Given, Stray, ValueView,
};
use crate::engine::EngineBackend;
use crate::error::{message, ErrorView, InferError};
use crate::generate::GenerateParams;
use crate::gguf_summary::optional_text;
use crate::graph::FloatReading;
use crate::paths::{
    default_tokenizer_path, join, join_path, models_dir, models_place, output_dir, output_place,
    server_place, server_workdir, tokenizer_place,
};
use crate::programs::{
    codec_dump_flags, codec_dump_table, codes_flags, codes_input_flags, codes_input_table,
    codes_table, e2e_flags, e2e_table, encoder_stage_flags, encoder_stage_table, fast_ar_flags,
    fast_ar_table, gguf_dump_flags, gguf_dump_table, reference_flags, reference_table,
    semantic_flags, semantic_table, server_flags, server_table, slow_ar_flags, slow_ar_table,
    waveform_flags, waveform_table,
};
use crate::text::strings;
use vstd::prelude::*;
use vstd::string::*;

verus! {

/// A text that was said, or another one.
pub open spec fn text_or(found: Seq<(FlagId, ValueView)>, id: FlagId, other: Seq<char>) -> Seq<
    char,
> {
    match text_given(found, id) {
        Some(t) => t,
        None => other,
    }
}

fn take_text(found: &Given, id: FlagId, other: String) -> (r: String)
    ensures
        r@ == text_or(found@, id, other@),
{
    match found.text(id) {
        Some(t) => t,
        None => other,
    }
}

/// A number of 32 bits that was said, or another one.
pub open spec fn u32_or(found: Seq<(FlagId, ValueView)>, id: FlagId, other: u32) -> u32 {
    match number_given(found, id) {
        Some(n) => n as u32,
        None => other,
    }
}

fn take_u32(found: &Given, id: FlagId, other: u32) -> (r: u32)
    ensures
        r == u32_or(found@, id, other),
{
    match found.number(id) {
        Some(n) => #[verifier::truncate] (n as u32),
        None => other,
    }
}

/// A size that was said, or another one.
pub open spec fn size_or(found: Seq<(FlagId, ValueView)>, id: FlagId, other: usize) -> usize {
    match number_given(found, id) {
        Some(n) => n as usize,
        None => other,
    }
}

fn take_size(found: &Given, id: FlagId, other: usize) -> (r: usize)
    ensures
        r == size_or(found@, id, other),
{
    match found.number(id) {
        Some(n) => #[verifier::truncate] (n as usize),
        None => other,
    }
}

/// Bits that were said, or others.
pub open spec fn bits_or(found: Seq<(FlagId, ValueView)>, id: FlagId, other: u32) -> u32 {
    match float_given(found, id) {
        Some(b) => b,
        None => other,
    }
}

fn take_bits(found: &Given, id: FlagId, other: u32) -> (r: u32)
    ensures
        r == bits_or(found@, id, other),
{
    match found.float(id) {
        Some(b) => b,
        None => other,
    }
}

// ---------------------------------------------------------------------
// Programs that speak
// ---------------------------------------------------------------------

/// The programs that speak.
#[derive(Debug, Clone, Copy, PartialEq, Eq, Structural)]
pub enum SpeechProgram {
    /// Writes sound and its codes.
    Sound,
    /// Writes codes.
    Codes,
    /// Writes tokens.
    Semantic,
    /// Writes the first frame.
    FirstFrame,
}

/// What a program that speaks is to do.
#[derive(Debug)]
pub struct SpeechArgs {
    pub transformer: String,
    pub codec: String,
    pub tokenizer: String,
    pub text: String,
    pub prompt_text: Option<String>,
    pub prompt_codes: Option<String>,
    pub output: String,
    pub codes: String,
    pub wav: String,
    pub params: GenerateParams,
    pub seed: u64,
}

/// What a program that speaks is to do, as a mathematical value.
pub ghost struct SpeechView {
    pub transformer: Seq<char>,
    pub codec: Seq<char>,
    pub tokenizer: Seq<char>,
    pub text: Seq<char>,
    pub prompt_text: Option<Seq<char>>,
    pub prompt_codes: Option<Seq<char>>,
    pub output: Seq<char>,
    pub codes: Seq<char>,
    pub wav: Seq<char>,
    pub params: GenerateParams,
    pub seed: u64,
}

impl View for SpeechArgs {
    type V = SpeechView;

    open spec fn view(&self) -> SpeechView {
        SpeechView {
            transformer: self.transformer@,
            codec: self.codec@,
            tokenizer: self.tokenizer@,
            text: self.text@,
            prompt_text: optional_text(self.prompt_text),
            prompt_codes: optional_text(self.prompt_codes),
            output: self.output@,
            codes: self.codes@,
            wav: self.wav@,
            params: self.params,
            seed: self.seed,
        }
    }
}

/// How many tokens a program generates where nothing is said.
pub open spec fn usual_tokens(p: SpeechProgram) -> u32 {
    match p {
        SpeechProgram::Sound => 1,
        SpeechProgram::Codes => 2,
        SpeechProgram::Semantic => 4,
        SpeechProgram::FirstFrame => 0,
    }
}

/// What flags of a program that speaks come to. Only the one that writes sound has files of its own
/// to fall back on.
pub open spec fn speech_of(p: SpeechProgram, found: Seq<(FlagId, ValueView)>, root: Seq<char>)
    -> Result<SpeechView, ErrorView> {
    let sound = p == SpeechProgram::Sound;
    if !sound && text_given(found, FlagId::Transformer) is None {
        Err(message("missing --transformer"@))
    } else if !sound && text_given(found, FlagId::Output) is None {
        Err(message("missing --output"@))
    } else {
        Ok(
            SpeechView {
                transformer: text_or(
                    found,
                    FlagId::Transformer,
                    join(models_place(root), "s2-pro-f16-transformer-only.gguf"@),
                ),
                codec: text_or(
                    found,
                    FlagId::Codec,
                    join(models_place(root), "s2-pro-f16-codec-only.gguf"@),
                ),
                tokenizer: text_or(found, FlagId::Tokenizer, tokenizer_place(root)),
                text: text_or(found, FlagId::Text, "hi"@),
                prompt_text: text_given(found, FlagId::PromptText),
                prompt_codes: text_given(found, FlagId::PromptCodes),
                output: text_or(
                    found,
                    FlagId::Output,
                    join(output_place(root), "e2e_wav_hi_rust.json"@),
                ),
                codes: text_or(
                    found,
                    FlagId::Codes,
                    join(output_place(root), "e2e_codes_hi_rust.json"@),
                ),
                wav: text_or(found, FlagId::Wav, join(output_place(root), "e2e_hi_rust.wav"@)),
                params: GenerateParams {
                    max_new_tokens: u32_or(found, FlagId::MaxNewTokens, usual_tokens(p)),
                    temperature: bits_or(found, FlagId::Temperature, 0),
                    top_p: bits_or(found, FlagId::TopP, 0x3f80_0000),
                    top_k: match signed_given(found, FlagId::TopK) {
                        Some(n) => n,
                        None => 0,
                    },
                    min_tokens_before_end: u32_or(found, FlagId::MinTokensBeforeEnd, 0),
                },
                seed: match number_given(found, FlagId::Seed) {
                    Some(n) => n,
                    None => 0,
                },
            },
        )
    }
}

/// The flags of a program that speaks.
pub open spec fn speech_table(p: SpeechProgram) -> Seq<crate::cli::Flag> {
    match p {
        SpeechProgram::Sound => e2e_table(),
        SpeechProgram::Codes => codes_table(),
        SpeechProgram::Semantic => semantic_table(),
        SpeechProgram::FirstFrame => fast_ar_table(),
    }
}

/// What the arguments of a program that speaks come to; nothing where help is asked for.
pub open spec fn speech_result(
    p: SpeechProgram,
    args: Seq<Seq<char>>,
    floats: Seq<FloatReading>,
    root: Seq<char>,
) -> Result<Option<SpeechView>, ErrorView> {
    match flags_from(
        args,
        floats,
        speech_table(p),
        Stray::Named("unknown argument: "),
        0,
        Seq::empty(),
    ) {
        Err(e) => Err(e),
        Ok(None) => Ok(None),
        Ok(Some(found)) => match speech_of(p, found, root) {
            Err(e) => Err(e),
            Ok(v) => Ok(Some(v)),
        },
    }
}

fn under(base: String, name: &str) -> (r: String)
    ensures
        r@ == join(base@, name@),
{
    join_path(base.as_str(), name)
}

impl SpeechArgs {
    /// Reads the arguments of a program that speaks.
    pub fn parse(
        p: SpeechProgram,
        args: &Vec<String>,
        floats: &Vec<FloatReading>,
        root: &str,
    ) -> (r: Result<Option<SpeechArgs>, InferError>)
        requires
            floats@.len() == args@.len(),
        ensures
            match r {
                Ok(None) => speech_result(p, strings(args@), floats@, root@) == Ok::<
                    Option<SpeechView>,
                    ErrorView,
                >(None),
                Ok(Some(a)) => speech_result(p, strings(args@), floats@, root@) == Ok::<
                    Option<SpeechView>,
                    ErrorView,
                >(Some(a@)),
                Err(e) => speech_result(p, strings(args@), floats@, root@) == Err::<
                    Option<SpeechView>,
                    ErrorView,
                >(e@),
            },
    {
        let flags = match p {
            SpeechProgram::Sound => e2e_flags(),
            SpeechProgram::Codes => codes_flags(),
            SpeechProgram::Semantic => semantic_flags(),
            SpeechProgram::FirstFrame => fast_ar_flags(),
        };
        let found = match read_flags(args, floats, &flags, Stray::Named("unknown argument: ")) {
            Err(e) => {
                return Err(e);
            },
            Ok(None) => {
                return Ok(None);
            },
            Ok(Some(g)) => g,
        };
        match SpeechArgs::from_flags(p, &found, root) {
            Err(e) => Err(e),
            Ok(a) => Ok(Some(a)),
        }
    }

    fn from_flags(p: SpeechProgram, found: &Given, root: &str) -> (r: Result<SpeechArgs, InferError>)
        ensures
            match r {
                Ok(a) => speech_of(p, found@, root@) == Ok::<SpeechView, ErrorView>(a@),
                Err(e) => speech_of(p, found@, root@) == Err::<SpeechView, ErrorView>(e@),
            },
    {
        let sound: bool = p == SpeechProgram::Sound;
        if !sound {
            if found.text(FlagId::Transformer).is_none() {
                return Err(InferError::text("missing --transformer"));
            }
            if found.text(FlagId::Output).is_none() {
                return Err(InferError::text("missing --output"));
            }
        }
        let usual: u32 = match p {
            SpeechProgram::Sound => 1,
            SpeechProgram::Codes => 2,
            SpeechProgram::Semantic => 4,
            SpeechProgram::FirstFrame => 0,
        };
        let top_k: i32 = match found.signed(FlagId::TopK) {
            Some(n) => n,
            None => 0,
        };
        let seed: u64 = match found.number(FlagId::Seed) {
            Some(n) => n,
            None => 0,
        };
        let params = GenerateParams {
            max_new_tokens: take_u32(found, FlagId::MaxNewTokens, usual),
            temperature: take_bits(found, FlagId::Temperature, 0),
            top_p: take_bits(found, FlagId::TopP, 0x3f80_0000),
            top_k,
            min_tokens_before_end: take_u32(found, FlagId::MinTokensBeforeEnd, 0),
        };
        Ok(
            SpeechArgs {
                transformer: take_text(
                    found,
                    FlagId::Transformer,
                    under(models_dir(root), "s2-pro-f16-transformer-only.gguf"),
                ),
                codec: take_text(
                    found,
                    FlagId::Codec,
                    under(models_dir(root), "s2-pro-f16-codec-only.gguf"),
                ),
                tokenizer: take_text(found, FlagId::Tokenizer, default_tokenizer_path(root)),
                text: take_text(found, FlagId::Text, String::from_str("hi")),
                prompt_text: found.text(FlagId::PromptText),
                prompt_codes: found.text(FlagId::PromptCodes),
                output: take_text(
                    found,
                    FlagId::Output,
                    under(output_dir(root), "e2e_wav_hi_rust.json"),
                ),
                codes: take_text(
                    found,
                    FlagId::Codes,
                    under(output_dir(root), "e2e_codes_hi_rust.json"),
                ),
                wav: take_text(found, FlagId::Wav, under(output_dir(root), "e2e_hi_rust.wav")),
                params,
                seed,
            },
        )
    }
}

// ---------------------------------------------------------------------
// Programs that use the codec alone
// ---------------------------------------------------------------------

/// The programs that use the codec alone.
#[derive(Debug, Clone, Copy, PartialEq, Eq, Structural)]
pub enum CodecProgram {
    /// Lists tensors.
    Dump,
    /// Writes what comes before the decoder.
    DecodeStage,
    /// Writes the frames that codes stand for.
    RvqLookup,
    /// Writes sound.
    Waveform,
    /// Writes what the encoder makes of sound.
    EncoderStage,
    /// Writes the codes of a voice.
    Reference,
}

/// What a program that uses the codec is to do.
#[derive(Debug)]
pub struct CodecArgs {
    pub codec: String,
    pub codes: String,
    pub output: String,
    pub wav: Option<String>,
    pub wav_input: Option<String>,
    pub samples: usize,
    pub prompt_text: Option<String>,
    pub prompt_text_file: Option<String>,
    pub prompt_codes_format: bool,
    pub metadata_output: Option<String>,
    pub contains: Option<String>,
    pub limit: Option<usize>,
}

/// What a program that uses the codec is to do, as a mathematical value.
pub ghost struct CodecArgsView {
    pub codec: Seq<char>,
    pub codes: Seq<char>,
    pub output: Seq<char>,
    pub wav: Option<Seq<char>>,
    pub wav_input: Option<Seq<char>>,
    pub samples: usize,
    pub prompt_text: Option<Seq<char>>,
    pub prompt_text_file: Option<Seq<char>>,
    pub prompt_codes_format: bool,
    pub metadata_output: Option<Seq<char>>,
    pub contains: Option<Seq<char>>,
    pub limit: Option<usize>,
}

impl View for CodecArgs {
    type V = CodecArgsView;

    open spec fn view(&self) -> CodecArgsView {
        CodecArgsView {
            codec: self.codec@,
            codes: self.codes@,
            output: self.output@,
            wav: optional_text(self.wav),
            wav_input: optional_text(self.wav_input),
            samples: self.samples,
            prompt_text: optional_text(self.prompt_text),
            prompt_text_file: optional_text(self.prompt_text_file),
            prompt_codes_format: self.prompt_codes_format,
            metadata_output: optional_text(self.metadata_output),
            contains: optional_text(self.contains),
            limit: self.limit,
        }
    }
}

/// The file that a program writes where nothing is said.
pub open spec fn usual_output(p: CodecProgram) -> Seq<char> {
    match p {
        CodecProgram::Dump => "s2-pro-f16-codec-registry.tsv"@,
        CodecProgram::DecodeStage => "decode_stage_hi_rust.json"@,
        CodecProgram::RvqLookup => "rvq_lookup_hi_rust.json"@,
        CodecProgram::Waveform => "waveform_hi_rust.json"@,
        CodecProgram::EncoderStage => "encoder_stage_synthetic_rust.json"@,
        CodecProgram::Reference => "reference_codes_synthetic_rust.json"@,
    }
}

/// The flags of a program that uses the codec.
pub open spec fn codec_table(p: CodecProgram) -> Seq<crate::cli::Flag> {
    match p {
        CodecProgram::Dump => codec_dump_table(),
        CodecProgram::DecodeStage => codes_input_table(),
        CodecProgram::RvqLookup => codes_input_table(),
        CodecProgram::Waveform => waveform_table(),
        CodecProgram::EncoderStage => encoder_stage_table(),
        CodecProgram::Reference => reference_table(),
    }
}

/// What flags of a program that uses the codec come to.
pub open spec fn codec_args_of(
    p: CodecProgram,
    found: Seq<(FlagId, ValueView)>,
    root: Seq<char>,
) -> CodecArgsView {
    CodecArgsView {
        codec: text_or(
            found,
            FlagId::Codec,
            join(models_place(root), "s2-pro-f16-codec-only.gguf"@),
        ),
        codes: text_or(
            found,
            FlagId::Codes,
            join(output_place(root), "generated_codes_hi_rust.json"@),
        ),
        output: text_or(found, FlagId::Output, join(output_place(root), usual_output(p))),
        wav: text_given(found, FlagId::Wav),
        wav_input: text_given(found, FlagId::WavInput),
        samples: size_or(found, FlagId::Samples, 2048),
        prompt_text: text_given(found, FlagId::PromptText),
        prompt_text_file: text_given(found, FlagId::PromptTextFile),
        prompt_codes_format: switch_given(found, FlagId::PromptCodesFormat),
        metadata_output: text_given(found, FlagId::MetadataOutput),
        contains: text_given(found, FlagId::Contains),
        limit: match number_given(found, FlagId::Limit) {
            Some(n) => Some(n as usize),
            None => None,
        },
    }
}

/// What the arguments of a program that uses the codec come to; nothing where help is asked for.
pub open spec fn codec_result(
    p: CodecProgram,
    args: Seq<Seq<char>>,
    floats: Seq<FloatReading>,
    root: Seq<char>,
) -> Result<Option<CodecArgsView>, ErrorView> {
    match flags_from(
        args,
        floats,
        codec_table(p),
        Stray::Named("unknown argument: "),
        0,
        Seq::empty(),
    ) {
        Err(e) => Err(e),
        Ok(None) => Ok(None),
        Ok(Some(found)) => Ok(Some(codec_args_of(p, found, root))),
    }
}

impl CodecArgs {
    /// Reads the arguments of a program that uses the codec.
    pub fn parse(
        p: CodecProgram,
        args: &Vec<String>,
        floats: &Vec<FloatReading>,
        root: &str,
    ) -> (r: Result<Option<CodecArgs>, InferError>)
        requires
            floats@.len() == args@.len(),
        ensures
            match r {
                Ok(None) => codec_result(p, strings(args@), floats@, root@) == Ok::<
                    Option<CodecArgsView>,
                    ErrorView,
                >(None),
                Ok(Some(a)) => codec_result(p, strings(args@), floats@, root@) == Ok::<
                    Option<CodecArgsView>,
                    ErrorView,
                >(Some(a@)),
                Err(e) => codec_result(p, strings(args@), floats@, root@) == Err::<
                    Option<CodecArgsView>,
                    ErrorView,
                >(e@),
            },
    {
        let flags = match p {
            CodecProgram::Dump => codec_dump_flags(),
            CodecProgram::DecodeStage => codes_input_flags(),
            CodecProgram::RvqLookup => codes_input_flags(),
            CodecProgram::Waveform => waveform_flags(),
            CodecProgram::EncoderStage => encoder_stage_flags(),
            CodecProgram::Reference => reference_flags(),
        };
        let found = match read_flags(args, floats, &flags, Stray::Named("unknown argument: ")) {
            Err(e) => {
                return Err(e);
            },
            Ok(None) => {
                return Ok(None);
            },
            Ok(Some(g)) => g,
        };
        let usual = match p {
            CodecProgram::Dump => "s2-pro-f16-codec-registry.tsv",
            CodecProgram::DecodeStage => "decode_stage_hi_rust.json",
            CodecProgram::RvqLookup => "rvq_lookup_hi_rust.json",
            CodecProgram::Waveform => "waveform_hi_rust.json",
            CodecProgram::EncoderStage => "encoder_stage_synthetic_rust.json",
            CodecProgram::Reference => "reference_codes_synthetic_rust.json",
        };
        let limit: Option<usize> = match found.number(FlagId::Limit) {
            Some(n) => Some(#[verifier::truncate] (n as usize)),
            None => None,
        };
        Ok(
            Some(
                CodecArgs {
                    codec: take_text(
                        &found,
                        FlagId::Codec,
                        under(models_dir(root), "s2-pro-f16-codec-only.gguf"),
                    ),
                    codes: take_text(
                        &found,
                        FlagId::Codes,
                        under(output_dir(root), "generated_codes_hi_rust.json"),
                    ),
                    output: take_text(&found, FlagId::Output, under(output_dir(root), usual)),
                    wav: found.text(FlagId::Wav),
                    wav_input: found.text(FlagId::WavInput),
                    samples: take_size(&found, FlagId::Samples, 2048),
                    prompt_text: found.text(FlagId::PromptText),
                    prompt_text_file: found.text(FlagId::PromptTextFile),
                    prompt_codes_format: found.switch(FlagId::PromptCodesFormat),
                    metadata_output: found.text(FlagId::MetadataOutput),
                    contains: found.text(FlagId::Contains),
                    limit,
                },
            ),
        )
    }

    /// Where the text spoken in a voice comes from: the text itself, or the file that holds it.
    pub fn prompt_text(&self) -> (r: Result<PromptTextSource, InferError>)
        ensures
            match (self.prompt_text, self.prompt_text_file) {
                (Some(_), Some(_)) => r matches Err(e) && e@ == message(
                    "--prompt-text and --prompt-text-file are mutually exclusive"@,
                ),
                (Some(t), None) => r matches Ok(PromptTextSource::Text(u)) && u@ == t@,
                (None, Some(p)) => r matches Ok(PromptTextSource::File(q)) && q@ == p@,
                (None, None) => r matches Err(e) && e@ == message(
                    "--prompt-codes-format requires --prompt-text or --prompt-text-file"@,
                ),
            },
    {
        match (&self.prompt_text, &self.prompt_text_file) {
            (Some(_), Some(_)) => Err(
                InferError::text("--prompt-text and --prompt-text-file are mutually exclusive"),
            ),
            (Some(t), None) => Ok(PromptTextSource::Text(t.clone())),
            (None, Some(p)) => Ok(PromptTextSource::File(p.clone())),
            (None, None) => Err(
                InferError::text(
                    "--prompt-codes-format requires --prompt-text or --prompt-text-file",
                ),
            ),
        }
    }
}

/// Where the text spoken in a voice comes from.
#[derive(Debug)]
pub enum PromptTextSource {
    Text(String),
    File(String),
}

// ---------------------------------------------------------------------
// Layers of the slow transformer
// ---------------------------------------------------------------------

/// Which layers are to work on which tokens.
#[derive(Debug)]
pub struct SlowArArgs {
    pub transformer: String,
    pub output: Option<String>,
    pub layer: usize,
    pub layers: usize,
    pub position: usize,
    pub tokens: usize,
    pub logits: bool,
    pub top_k: usize,
}

/// Which layers are to work on which tokens, as a mathematical value.
pub ghost struct SlowArView {
    pub transformer: Seq<char>,
    pub output: Option<Seq<char>>,
    pub layer: usize,
    pub layers: usize,
    pub position: usize,
    pub tokens: usize,
    pub logits: bool,
    pub top_k: usize,
}

impl View for SlowArArgs {
    type V = SlowArView;

    open spec fn view(&self) -> SlowArView {
        SlowArView {
            transformer: self.transformer@,
            output: optional_text(self.output),
            layer: self.layer,
            layers: self.layers,
            position: self.position,
            tokens: self.tokens,
            logits: self.logits,
            top_k: self.top_k,
        }
    }
}

/// What the arguments come to; nothing where help is asked for.
pub open spec fn slow_ar_result(args: Seq<Seq<char>>, floats: Seq<FloatReading>) -> Result<
    Option<SlowArView>,
    ErrorView,
> {
    match flags_from(
        args,
        floats,
        slow_ar_table(),
        Stray::Named("unknown argument: "),
        0,
        Seq::empty(),
    ) {
        Err(e) => Err(e),
        Ok(None) => Ok(None),
        Ok(Some(found)) => match text_given(found, FlagId::Transformer) {
            None => Err(message("missing --transformer <path>"@)),
            Some(transformer) => Ok(
                Some(
                    SlowArView {
                        transformer,
                        output: text_given(found, FlagId::Output),
                        layer: size_or(found, FlagId::Layer, 0),
                        layers: size_or(found, FlagId::Layers, 1),
                        position: size_or(found, FlagId::Position, 0),
                        tokens: size_or(found, FlagId::Tokens, 1),
                        logits: switch_given(found, FlagId::Logits),
                        top_k: size_or(found, FlagId::TopK, 8),
                    },
                ),
            ),
        },
    }
}

impl SlowArArgs {
    /// Reads the arguments.
    pub fn parse(args: &Vec<String>, floats: &Vec<FloatReading>) -> (r: Result<
        Option<SlowArArgs>,
        InferError,
    >)
        requires
            floats@.len() == args@.len(),
        ensures
            match r {
                Ok(None) => slow_ar_result(strings(args@), floats@) == Ok::<
                    Option<SlowArView>,
                    ErrorView,
                >(None),
                Ok(Some(a)) => slow_ar_result(strings(args@), floats@) == Ok::<
                    Option<SlowArView>,
                    ErrorView,
                >(Some(a@)),
                Err(e) => slow_ar_result(strings(args@), floats@) == Err::<
                    Option<SlowArView>,
                    ErrorView,
                >(e@),
            },
    {
        let flags = slow_ar_flags();
        let found = match read_flags(args, floats, &flags, Stray::Named("unknown argument: ")) {
            Err(e) => {
                return Err(e);
            },
            Ok(None) => {
                return Ok(None);
            },
            Ok(Some(g)) => g,
        };
        match found.text(FlagId::Transformer) {
            None => Err(InferError::text("missing --transformer <path>")),
            Some(transformer) => Ok(
                Some(
                    SlowArArgs {
                        transformer,
                        output: found.text(FlagId::Output),
                        layer: take_size(&found, FlagId::Layer, 0),
                        layers: take_size(&found, FlagId::Layers, 1),
                        position: take_size(&found, FlagId::Position, 0),
                        tokens: take_size(&found, FlagId::Tokens, 1),
                        logits: found.switch(FlagId::Logits),
                        top_k: take_size(&found, FlagId::TopK, 8),
                    },
                ),
            ),
        }
    }
}

// ---------------------------------------------------------------------
// The server
// ---------------------------------------------------------------------

/// What the server is started with.
#[derive(Debug)]
pub struct ServerArgs {
    pub transformer: Option<String>,
    pub codec: Option<String>,
    pub backend: Option<EngineBackend>,
    pub max_new_tokens: Option<u32>,
    pub port: u16,
    pub print_paths: bool,
}

/// What the server is started with, as a mathematical value.
pub ghost struct ServerArgsView {
    pub transformer: Option<Seq<char>>,
    pub codec: Option<Seq<char>>,
    pub backend: Option<EngineBackend>,
    pub max_new_tokens: Option<u32>,
    pub port: u16,
    pub print_paths: bool,
}

impl View for ServerArgs {
    type V = ServerArgsView;

    open spec fn view(&self) -> ServerArgsView {
        ServerArgsView {
            transformer: optional_text(self.transformer),
            codec: optional_text(self.codec),
            backend: self.backend,
            max_new_tokens: self.max_new_tokens,
            port: self.port,
            print_paths: self.print_paths,
        }
    }
}

/// What the arguments of the server come to; nothing where help is asked for.
pub open spec fn server_result(args: Seq<Seq<char>>, floats: Seq<FloatReading>) -> Result<
    Option<ServerArgsView>,
    ErrorView,
> {
    match flags_from(args, floats, server_table(), Stray::Named("unknown arg: "), 0, Seq::empty()) {
        Err(e) => Err(e),
        Ok(None) => Ok(None),
        Ok(Some(found)) => Ok(
            Some(
                ServerArgsView {
                    transformer: text_given(found, FlagId::Transformer),
                    codec: text_given(found, FlagId::Codec),
                    backend: backend_given(found, FlagId::Backend),
                    max_new_tokens: match number_given(found, FlagId::MaxNewTokens) {
                        Some(n) => Some(n as u32),
                        None => None,
                    },
                    port: match number_given(found, FlagId::Port) {
                        Some(n) => n as u16,
                        None => 8081,
                    },
                    print_paths: switch_given(found, FlagId::PrintPaths),
                },
            ),
        ),
    }
}

impl ServerArgs {
    /// Reads the arguments of the server.
    pub fn parse(args: &Vec<String>, floats: &Vec<FloatReading>) -> (r: Result<
        Option<ServerArgs>,
        InferError,
    >)
        requires
            floats@.len() == args@.len(),
        ensures
            match r {
                Ok(None) => server_result(strings(args@), floats@) == Ok::<
                    Option<ServerArgsView>,
                    ErrorView,
                >(None),
                Ok(Some(a)) => server_result(strings(args@), floats@) == Ok::<
                    Option<ServerArgsView>,
                    ErrorView,
                >(Some(a@)),
                Err(e) => server_result(strings(args@), floats@) == Err::<
                    Option<ServerArgsView>,
                    ErrorView,
                >(e@),
            },
    {
        let flags = server_flags();
        let found = match read_flags(args, floats, &flags, Stray::Named("unknown arg: ")) {
            Err(e) => {
                return Err(e);
            },
            Ok(None) => {
                return Ok(None);
            },
            Ok(Some(g)) => g,
        };
        let max_new_tokens: Option<u32> = match found.number(FlagId::MaxNewTokens) {
            Some(n) => Some(#[verifier::truncate] (n as u32)),
            None => None,
        };
        let port: u16 = match found.number(FlagId::Port) {
            Some(n) => #[verifier::truncate] (n as u16),
            None => 8081,
        };
        Ok(
            Some(
                ServerArgs {
                    transformer: found.text(FlagId::Transformer),
                    codec: found.text(FlagId::Codec),
                    backend: found.backend(FlagId::Backend),
                    max_new_tokens,
                    port,
                    print_paths: found.switch(FlagId::PrintPaths),
                },
            ),
        )
    }
}

/// The lines that say where the server looks for its files and writes them.
pub open spec fn path_lines(root: Seq<char>) -> Seq<Seq<char>> {
    seq![
        "project_root="@ + root,
        "models_dir="@ + models_place(root),
        "tokenizer="@ + tokenizer_place(root),
        "output_dir="@ + output_place(root),
        "server_workdir="@ + server_place(root),
    ]
}

/// The lines that say where the server looks for its files and writes them.
pub fn path_report(root: &str) -> (r: Vec<String>)
    ensures
        strings(r@) == path_lines(root@),
{
    let models = models_dir(root);
    let tokenizer = default_tokenizer_path(root);
    let output = output_dir(root);
    let workdir = server_workdir(root);
    let mut lines: Vec<String> = Vec::new();
    lines.push(String::from_str("project_root=").concat(root));
    lines.push(String::from_str("models_dir=").concat(models.as_str()));
    lines.push(String::from_str("tokenizer=").concat(tokenizer.as_str()));
    lines.push(String::from_str("output_dir=").concat(output.as_str()));
    lines.push(String::from_str("server_workdir=").concat(workdir.as_str()));
    assert(strings(lines@) =~= path_lines(root@));
    lines
}

// ---------------------------------------------------------------------
// Listing the tensors of a model
// ---------------------------------------------------------------------

/// Which tensors of which model are to be listed.
#[derive(Debug)]
pub struct GgufDumpArgs {
    pub path: String,
    pub limit: Option<usize>,
    pub contains: Option<String>,
    pub output: Option<String>,
}

/// How the program that lists tensors is called.
pub open spec fn dump_usage() -> Seq<char> {
    "usage: fish_s2_gguf_dump <model.gguf> [--limit N] [--contains TEXT] [--output tensors.tsv]"@
}

/// What the arguments behind the first one come to.
pub open spec fn dump_flags(args: Seq<Seq<char>>, floats: Seq<FloatReading>) -> Result<
    Option<Seq<(FlagId, ValueView)>>,
    ErrorView,
> {
    flags_from(
        args,
        floats,
        gguf_dump_table(),
        Stray::Fixed(
            "usage: fish_s2_gguf_dump <model.gguf> [--limit N] [--contains TEXT] [--output tensors.tsv]",
        ),
        0,
        Seq::empty(),
    )
}

impl GgufDumpArgs {
    /// Reads the arguments: a model first, then flags.
    pub fn parse(path: Option<String>, args: &Vec<String>, floats: &Vec<FloatReading>) -> (r: Result<
        GgufDumpArgs,
        InferError,
    >)
        requires
            floats@.len() == args@.len(),
        ensures
            match path {
                None => r matches Err(e) && e@ == message(dump_usage()),
                Some(p) => match dump_flags(strings(args@), floats@) {
                    Err(e) => r matches Err(f) && f@ == e,
                    Ok(None) => r matches Err(e) && e@ == message(dump_usage()),
                    Ok(Some(found)) => r matches Ok(a) && a.path@ == p@ && a.limit == (
                    match number_given(found, FlagId::Limit) {
                        Some(n) => Some(n as usize),
                        None => None,
                    }) && optional_text(a.contains) == text_given(found, FlagId::Contains)
                        && optional_text(a.output) == text_given(found, FlagId::Output),
                },
            },
    {
        let usage = "usage: fish_s2_gguf_dump <model.gguf> [--limit N] [--contains TEXT] [--output tensors.tsv]";
        let path = match path {
            None => {
                return Err(InferError::text(usage));
            },
            Some(p) => p,
        };
        let flags = gguf_dump_flags();
        let found = match read_flags(args, floats, &flags, Stray::Fixed(usage)) {
            Err(e) => {
                return Err(e);
            },
            Ok(None) => {
                return Err(InferError::text(usage));
            },
            Ok(Some(g)) => g,
        };
        let limit: Option<usize> = match found.number(FlagId::Limit) {
            Some(n) => Some(#[verifier::truncate] (n as usize)),
            None => None,
        };
        Ok(
            GgufDumpArgs {
                path,
                limit,
                contains: found.text(FlagId::Contains),
                output: found.text(FlagId::Output),
            },
        )
    }
}

} // verus!
