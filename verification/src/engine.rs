//! Which engine speaks, what it is started with, and which reference voice it uses.
use crate::error::{infer_error_text, message, ErrorView, InferError};
use crate::generate::{GenerateParams, SEVEN_TENTHS_BITS};
use crate::paths::{
    default_tokenizer_path, is_same_path, same_path, server_place, server_workdir, tokenizer_place,
};
use crate::prompt::PromptCodes;
use crate::sizes::is_finding;
use crate::text::{lower, str_eq, to_ascii_lowercase};
use vstd::prelude::*;
use vstd::string::*;

verus! {

// ---------------------------------------------------------------------
// Backends
// ---------------------------------------------------------------------

/// What speaks.
#[derive(Debug, Clone, Copy, PartialEq, Eq, Structural)]
pub enum EngineBackend {
    RustPure,
    Ffi,
    FfiCuda,
}

/// The backend with a name, whatever the case of its letters.
pub open spec fn backend_named(value: Seq<char>) -> Option<EngineBackend> {
    let name = lower(value);
    if name == "rust"@ || name == "rust-pure"@ || name == "pure-rust"@ {
        Some(EngineBackend::RustPure)
    } else if name == "ffi"@ || name == "cpp"@ || name == "native"@ {
        Some(EngineBackend::Ffi)
    } else if name == "cuda"@ || name == "ffi-cuda"@ || name == "cpp-cuda"@ || name
        == "native-cuda"@ {
        Some(EngineBackend::FfiCuda)
    } else {
        None
    }
}

/// The name of a backend.
pub open spec fn backend_name(b: EngineBackend) -> Seq<char> {
    match b {
        EngineBackend::RustPure => "rust-pure"@,
        EngineBackend::Ffi => "ffi"@,
        EngineBackend::FfiCuda => "ffi-cuda"@,
    }
}

impl EngineBackend {
    /// The backend with a name, whatever the case of its letters.
    pub fn parse(value: &str) -> (r: Result<EngineBackend, InferError>)
        ensures
            match r {
                Ok(b) => backend_named(value@) == Some(b),
                Err(e) => backend_named(value@) is None && e@ == message(
                    "unknown backend: "@ + lower(value@)
                        + " (expected "@ + "rust-pure, ffi, or ffi-cuda"@ + ")"@,
                ),
            },
    {
        let low = to_ascii_lowercase(value);
        let name = low.as_str();
        if str_eq(name, "rust") || str_eq(name, "rust-pure") || str_eq(name, "pure-rust") {
            return Ok(EngineBackend::RustPure);
        }
        if str_eq(name, "ffi") || str_eq(name, "cpp") || str_eq(name, "native") {
            return Ok(EngineBackend::Ffi);
        }
        if str_eq(name, "cuda") || str_eq(name, "ffi-cuda") || str_eq(name, "cpp-cuda") || str_eq(
            name,
            "native-cuda",
        ) {
            return Ok(EngineBackend::FfiCuda);
        }
        Err(
            InferError::Message(
                String::from_str("unknown backend: ").concat(name).concat(" (expected ").concat(
                    EngineBackend::expected_values(),
                ).concat(")"),
            ),
        )
    }

    /// The name of the backend.
    pub fn as_str(self) -> (r: &'static str)
        ensures
            r@ == backend_name(self),
    {
        match self {
            EngineBackend::RustPure => "rust-pure",
            EngineBackend::Ffi => "ffi",
            EngineBackend::FfiCuda => "ffi-cuda",
        }
    }

    /// Whether the backend is a native library.
    pub fn is_ffi(self) -> (r: bool)
        ensures
            r == (self != EngineBackend::RustPure),
    {
        match self {
            EngineBackend::RustPure => false,
            _ => true,
        }
    }

    /// Whether the backend computes on a graphics card.
    pub fn uses_cuda(self) -> (r: bool)
        ensures
            r == (self == EngineBackend::FfiCuda),
    {
        match self {
            EngineBackend::FfiCuda => true,
            _ => false,
        }
    }

    /// The names, as a sentence lists them.
    pub fn expected_values() -> (r: &'static str)
        ensures
            r@ == "rust-pure, ffi, or ffi-cuda"@,
    {
        "rust-pure, ffi, or ffi-cuda"
    }

    /// The names, as a command line lists them.
    pub fn cli_values() -> (r: &'static str)
        ensures
            r@ == "rust-pure|ffi|ffi-cuda"@,
    {
        "rust-pure|ffi|ffi-cuda"
    }
}

/// Whether a native library is linked in: none is.
pub fn cpp_engine_linked() -> (r: bool)
    ensures
        !r,
{
    false
}

/// A backend is found under its own name.
pub proof fn names_are_parsed_back(b: EngineBackend)
    ensures
        backend_named(backend_name(b)) == Some(b),
{
    reveal_strlit("rust");
    reveal_strlit("rust-pure");
    reveal_strlit("pure-rust");
    reveal_strlit("ffi");
    reveal_strlit("cpp");
    reveal_strlit("native");
    reveal_strlit("cuda");
    reveal_strlit("ffi-cuda");
    let name = backend_name(b);
    assert(lower(name) =~= name);
    assert(name.len() == 9 || name.len() == 3 || name.len() == 8);
}

// ---------------------------------------------------------------------
// What an engine is started with
// ---------------------------------------------------------------------

/// What an engine is started with.
#[derive(Debug)]
pub struct EngineConfig {
    pub transformer_gguf: String,
    pub codec_gguf: String,
    pub tokenizer_path: String,
    pub workdir: String,
    pub backend: EngineBackend,
    pub generate_params: GenerateParams,
    pub seed: u64,
    pub vulkan_device: i32,
    pub codec_vulkan_device: i32,
    pub cuda_device: i32,
    pub codec_cuda: bool,
}

/// What is wrong with the model files, if anything.
pub open spec fn models_error(
    transformer: Seq<char>,
    transformer_exists: bool,
    codec: Seq<char>,
    codec_exists: bool,
) -> Option<ErrorView> {
    if !transformer_exists {
        Some(message("transformer GGUF missing: "@ + transformer))
    } else if !codec_exists {
        Some(message("codec GGUF missing: "@ + codec))
    } else {
        None
    }
}

impl EngineConfig {
    /// What an engine for two model files is started with, where both of them exist.
    pub fn new(
        transformer_gguf: String,
        codec_gguf: String,
        transformer_exists: bool,
        codec_exists: bool,
        root: &str,
    ) -> (r: Result<EngineConfig, InferError>)
        ensures
            match r {
                Ok(c) => {
                    &&& models_error(
                        transformer_gguf@,
                        transformer_exists,
                        codec_gguf@,
                        codec_exists,
                    ) is None
                    &&& c.transformer_gguf@ == transformer_gguf@
                    &&& c.codec_gguf@ == codec_gguf@
                    &&& c.tokenizer_path@ == tokenizer_place(root@)
                    &&& c.workdir@ == server_place(root@)
                    &&& c.backend == EngineBackend::RustPure
                    &&& c.generate_params == (GenerateParams {
                        max_new_tokens: 512,
                        temperature: SEVEN_TENTHS_BITS,
                        top_p: SEVEN_TENTHS_BITS,
                        top_k: 30,
                        min_tokens_before_end: 64,
                    })
                    &&& c.seed == 0
                    &&& c.vulkan_device == 0
                    &&& c.codec_vulkan_device == 0
                    &&& c.cuda_device == 0
                    &&& !c.codec_cuda
                },
                Err(e) => models_error(
                    transformer_gguf@,
                    transformer_exists,
                    codec_gguf@,
                    codec_exists,
                ) == Some(e@),
            },
    {
        if !transformer_exists {
            return Err(
                InferError::Message(
                    String::from_str("transformer GGUF missing: ").concat(
                        transformer_gguf.as_str(),
                    ),
                ),
            );
        }
        if !codec_exists {
            return Err(
                InferError::Message(
                    String::from_str("codec GGUF missing: ").concat(codec_gguf.as_str()),
                ),
            );
        }
        Ok(
            EngineConfig {
                transformer_gguf,
                codec_gguf,
                tokenizer_path: default_tokenizer_path(root),
                workdir: server_workdir(root),
                backend: EngineBackend::RustPure,
                generate_params: GenerateParams::default(),
                seed: 0,
                vulkan_device: 0,
                codec_vulkan_device: 0,
                cuda_device: 0,
                codec_cuda: false,
            },
        )
    }

    /// What is wrong with loading an engine, before any model is read, if anything.
    pub open spec fn load_error(&self, tokenizer_exists: bool) -> Option<ErrorView> {
        if !tokenizer_exists {
            Some(
                message(
                    "tokenizer not found: "@ + self.tokenizer_path@
                        + " — copy tokenizer.json from fishaudio/s2-pro into models/"@,
                ),
            )
        } else if self.backend != EngineBackend::RustPure {
            Some(ErrorView::NativeNotLinked)
        } else {
            None
        }
    }

    /// Checks whether an engine can be loaded.
    pub fn check_load(&self, tokenizer_exists: bool) -> (r: Result<(), InferError>)
        ensures
            is_finding(r, self.load_error(tokenizer_exists)),
    {
        if !tokenizer_exists {
            return Err(
                InferError::Message(
                    String::from_str("tokenizer not found: ").concat(
                        self.tokenizer_path.as_str(),
                    ).concat(" — copy tokenizer.json from fishaudio/s2-pro into models/"),
                ),
            );
        }
        if self.backend.is_ffi() {
            return Err(InferError::NativeNotLinked);
        }
        Ok(())
    }
}

// ---------------------------------------------------------------------
// Reference voices
// ---------------------------------------------------------------------

/// What is to be spoken, and after which voice.
#[derive(Debug)]
pub struct SynthesisRequest {
    pub text: String,
    pub reference_text: Option<String>,
    pub reference_wav: Option<String>,
}

/// Which reference voice a request uses.
#[derive(Debug, Clone, Copy, PartialEq, Eq, Structural)]
pub enum ReferenceChoice {
    /// The one that the request names.
    Named,
    /// The one that the engine was started with, where there is one.
    Default,
}

/// Which reference voice a request uses: its own where it gives both parts, the engine's where it
/// gives none.
pub open spec fn reference_choice(wav: bool, text: bool) -> Result<ReferenceChoice, ErrorView> {
    if wav && text {
        Ok(ReferenceChoice::Named)
    } else if !wav && !text {
        Ok(ReferenceChoice::Default)
    } else {
        Err(message("reference_wav and reference_text must both be set for RustPure"@))
    }
}

impl SynthesisRequest {
    /// Which reference voice the request uses.
    pub fn reference(&self) -> (r: Result<ReferenceChoice, InferError>)
        ensures
            match r {
                Ok(c) => reference_choice(
                    self.reference_wav is Some,
                    self.reference_text is Some,
                ) == Ok::<ReferenceChoice, ErrorView>(c),
                Err(e) => reference_choice(
                    self.reference_wav is Some,
                    self.reference_text is Some,
                ) == Err::<ReferenceChoice, ErrorView>(e@),
            },
    {
        match (&self.reference_wav, &self.reference_text) {
            (Some(_), Some(_)) => Ok(ReferenceChoice::Named),
            (None, None) => Ok(ReferenceChoice::Default),
            _ => Err(
                InferError::text("reference_wav and reference_text must both be set for RustPure"),
            ),
        }
    }
}

/// Whether a directory holds a reference voice; an error where it holds one part only.
pub open spec fn stored_reference(wav: bool, text: bool, workdir: Seq<char>) -> Result<
    bool,
    ErrorView,
> {
    if wav != text {
        Err(message("reference.wav and reference.txt must both exist in "@ + workdir))
    } else {
        Ok(wav)
    }
}

/// Whether a directory holds a reference voice.
pub fn has_workdir_reference(wav_is_file: bool, text_is_file: bool, workdir: &str) -> (r: Result<
    bool,
    InferError,
>)
    ensures
        match r {
            Ok(v) => stored_reference(wav_is_file, text_is_file, workdir@) == Ok::<bool, ErrorView>(
                v,
            ),
            Err(e) => stored_reference(wav_is_file, text_is_file, workdir@) == Err::<
                bool,
                ErrorView,
            >(e@),
        },
{
    if wav_is_file != text_is_file {
        return Err(
            InferError::Message(
                String::from_str("reference.wav and reference.txt must both exist in ").concat(
                    workdir,
                ),
            ),
        );
    }
    Ok(wav_is_file)
}

/// A reference voice that is ready for use.
#[derive(Debug)]
pub struct CachedReference {
    pub text: String,
    pub prompt_codes: PromptCodes,
}

/// What a reference voice is found by again: its file, how long and how old the file is, and the
/// text spoken in it.
#[derive(Debug)]
pub struct ReferenceCacheKey {
    pub wav_path: String,
    pub wav_len: u64,
    pub wav_modified_nanos: Option<u128>,
    pub text: String,
}

/// A key as a mathematical value.
pub ghost struct KeyView {
    pub wav_path: Seq<char>,
    pub wav_len: u64,
    pub wav_modified_nanos: Option<u128>,
    pub text: Seq<char>,
}

impl View for ReferenceCacheKey {
    type V = KeyView;

    open spec fn view(&self) -> KeyView {
        KeyView {
            wav_path: self.wav_path@,
            wav_len: self.wav_len,
            wav_modified_nanos: self.wav_modified_nanos,
            text: self.text@,
        }
    }
}

/// Whether two keys are the same: their paths have the same parts, and the rest agrees.
pub open spec fn same_reference(a: KeyView, b: KeyView) -> bool {
    &&& same_path(a.wav_path, b.wav_path)
    &&& a.wav_len == b.wav_len
    &&& a.wav_modified_nanos == b.wav_modified_nanos
    &&& a.text == b.text
}

impl ReferenceCacheKey {
    /// Whether two keys are the same.
    pub fn same_as(&self, other: &ReferenceCacheKey) -> (r: bool)
        ensures
            r == same_reference(self@, other@),
    {
        let times_agree: bool = match (self.wav_modified_nanos, other.wav_modified_nanos) {
            (Some(a), Some(b)) => a == b,
            (None, None) => true,
            _ => false,
        };
        self.wav_len == other.wav_len && times_agree && is_same_path(
            self.wav_path.as_str(),
            other.wav_path.as_str(),
        ) && str_eq(self.text.as_str(), other.text.as_str())
    }
}

/// The reference voice that was used last.
#[derive(Debug)]
pub struct ReferenceCache {
    entry: Option<(ReferenceCacheKey, CachedReference)>,
}

impl ReferenceCache {
    /// The key of what is kept, and what is kept.
    pub closed spec fn kept(&self) -> Option<(KeyView, CachedReference)> {
        match self.entry {
            None => None,
            Some(p) => Some((p.0@, p.1)),
        }
    }

    /// Nothing kept.
    pub fn new() -> (r: ReferenceCache)
        ensures
            r.kept() is None,
    {
        ReferenceCache { entry: None }
    }

    /// What is kept under a key.
    pub fn find(&self, key: &ReferenceCacheKey) -> (r: Option<&CachedReference>)
        ensures
            match r {
                Some(c) => self.kept() matches Some(p) && same_reference(p.0, key@) && p.1 == *c,
                None => self.kept() matches Some(p) ==> !same_reference(p.0, key@),
            },
    {
        match &self.entry {
            None => None,
            Some(p) => if p.0.same_as(key) {
                Some(&p.1)
            } else {
                None
            },
        }
    }

    /// Keeps a reference voice in place of the one before.
    pub fn keep(&mut self, key: ReferenceCacheKey, reference: CachedReference)
        ensures
            final(self).kept() == Some((key@, reference)),
    {
        self.entry = Some((key, reference));
    }
}

// ---------------------------------------------------------------------
// Replies of the server
// ---------------------------------------------------------------------

/// What the server answers.
#[derive(Debug)]
pub enum TtsReply {
    /// Sound, with the status of success.
    Sound(Vec<u8>),
    /// What went wrong, with a status.
    Problem(u16, String),
}

/// What is wrong with the format that a request asks for, if anything: only one is known, whatever
/// the case of its letters.
pub open spec fn format_refused(format: Seq<char>) -> bool {
    lower(format) != "wav"@
}

/// The answer to a request for a format that is not known.
pub fn check_format(format: &str) -> (r: Option<TtsReply>)
    ensures
        r is Some == format_refused(format@),
        r matches Some(reply) ==> (reply matches TtsReply::Problem(status, text) && status == 400
            && text@ == "only wav format supported"@),
{
    let low = to_ascii_lowercase(format);
    if str_eq(low.as_str(), "wav") {
        None
    } else {
        Some(TtsReply::Problem(400, String::from_str("only wav format supported")))
    }
}

/// The answer to a request that was carried out.
pub fn reply_to(result: Result<Vec<u8>, InferError>) -> (r: TtsReply)
    ensures
        match result {
            Ok(bytes) => r == TtsReply::Sound(bytes),
            Err(e) => r matches TtsReply::Problem(status, text) && status == 500 && text@
                == infer_error_text(e@),
        },
{
    match result {
        Ok(bytes) => TtsReply::Sound(bytes),
        Err(e) => TtsReply::Problem(500, e.message()),
    }
}

/// The request that the body of a call stands for: its text, spoken after the engine's own voice.
pub fn request_of(text: String) -> (r: SynthesisRequest)
    ensures
        r.text@ == text@,
        r.reference_text is None,
        r.reference_wav is None,
{
    SynthesisRequest { text, reference_text: None, reference_wav: None }
}

} // verus!
