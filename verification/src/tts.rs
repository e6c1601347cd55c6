//! Requests to a running synthesis server, and its answers.
use crate::error::{message, CoreError};
use crate::gguf_summary::optional_text;
use crate::text::{dec, dec_u64};
use vstd::prelude::*;
use vstd::string::*;

verus! {

/// What to synthesise, and in which format.
#[derive(Debug)]
pub struct TtsRequest {
    pub text: String,
    pub format: String,
}

/// Synthesised audio, and where it was saved.
#[derive(Debug)]
pub struct TtsResponse {
    pub wav_bytes: Vec<u8>,
    pub saved_path: Option<String>,
}

/// What a server says of a request that it refused.
#[derive(Debug)]
pub struct TtsApiError {
    pub error: Option<String>,
    pub message: Option<String>,
}

/// The address of the server at a port of this machine.
pub fn base_url(port: u16) -> (r: String)
    ensures
        r@ == "http://127.0.0.1:"@ + dec(port as nat),
{
    let digits = dec_u64(port as u64);
    String::from_str("http://127.0.0.1:").concat(digits.as_str())
}

/// Where synthesis requests go.
pub fn tts_url(port: u16) -> (r: String)
    ensures
        r@ == "http://127.0.0.1:"@ + dec(port as nat) + "/v1/tts"@,
{
    base_url(port).concat("/v1/tts")
}

/// The reason that a refusal gives: its error, else its message, else the whole answer.
pub open spec fn refusal_reason(api: Option<TtsApiError>, body: Seq<char>) -> Seq<char> {
    match api {
        None => body,
        Some(e) => match e.error {
            Some(t) => t@,
            None => match e.message {
                Some(t) => t@,
                None => body,
            },
        },
    }
}

/// The error of a refused request, given the answer's status, its body, and what the body says
/// where it could be read.
pub fn refusal(status: &str, body: String, api: Option<TtsApiError>) -> (r: CoreError)
    ensures
        r@ == message("TTS failed ("@ + status@ + "): "@ + refusal_reason(api, body@)),
{
    let reason = match api {
        None => body,
        Some(e) => match e.error {
            Some(t) => t,
            None => match e.message {
                Some(t) => t,
                None => body,
            },
        },
    };
    CoreError::Message(
        String::from_str("TTS failed (").concat(status).concat("): ").concat(reason.as_str()),
    )
}

impl TtsResponse {
    /// Audio as it came, not yet saved.
    pub fn unsaved(wav_bytes: Vec<u8>) -> (r: TtsResponse)
        ensures
            r.wav_bytes@ == wav_bytes@,
            r.saved_path is None,
    {
        TtsResponse { wav_bytes, saved_path: None }
    }

    /// The same audio, saved at the given path.
    pub fn saved(self, path: String) -> (r: TtsResponse)
        ensures
            r.wav_bytes@ == self.wav_bytes@,
            optional_text(r.saved_path) == Some(path@),
    {
        TtsResponse { wav_bytes: self.wav_bytes, saved_path: Some(path) }
    }
}

} // verus!
