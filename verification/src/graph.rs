//! The shape of the two transformers of a speech model.
use crate::error::{infer_outcome, message, ErrorView, InferError};
use crate::gguf::{GgmlType, GgufFile};
use crate::gguf_summary::{metadata_value, value_of};
use crate::number::{parse_error_text, parse_u32, unsigned_value};
use crate::text::{dec, dec_u64, join_strings, joined, str_eq, strings};
use vstd::prelude::*;
use vstd::string::*;

verus! {

pub const SLOW_AR_LAYERS: usize = 36;

pub const FAST_AR_LAYERS: usize = 4;

pub const SLOW_CONTEXT_LENGTH: u32 = 32768;

pub const FAST_CONTEXT_LENGTH: u32 = 11;

pub const HIDDEN_SIZE: u64 = 2560;

pub const ATTENTION_HEADS: u32 = 32;

pub const KV_HEADS: u32 = 8;

pub const HEAD_DIM: u32 = 128;

pub const QK_NORM_SIZE: u64 = 128;

pub const WQKV_OUT: u64 = 6144;

pub const ATTENTION_OUT: u64 = 4096;

pub const FFN_SIZE: u64 = 9728;

pub const TEXT_VOCAB_SIZE: u64 = 155776;

pub const FAST_VOCAB_SIZE: u64 = 4096;

pub const CODEBOOK_EMBEDDING_SIZE: u64 = 40960;

pub const CODEBOOK_SIZE: u32 = 4096;

pub const NUM_CODEBOOKS: u32 = 10;

pub const SEMANTIC_BEGIN_ID: u32 = 151678;

pub const SEMANTIC_END_ID: u32 = 155773;

/// The single-precision bits of one million, the base of the rotary frequencies.
pub const ROPE_FREQ_BASE_BITS: u32 = 0x4974_2400;

/// The single-precision bits of one millionth, the smallest mean square in a norm.
pub const RMS_NORM_EPS_BITS: u32 = 0x3586_37bd;

/// Metadata entries, as texts.
pub type Entries = Seq<(Seq<char>, Seq<char>)>;

// ---------------------------------------------------------------------
// Metadata
// ---------------------------------------------------------------------

/// The text under a key that must be there.
pub open spec fn required_text(m: Entries, key: Seq<char>) -> Result<Seq<char>, ErrorView> {
    match value_of(m, key, 0) {
        Some(t) => Ok(t),
        None => Err(message("missing "@ + key)),
    }
}

/// The number under a key.
pub open spec fn number_under(m: Entries, key: Seq<char>) -> Result<u32, ErrorView> {
    match required_text(m, key) {
        Err(e) => Err(e),
        Ok(t) => match unsigned_value(t, u32::MAX as nat) {
            Ok(v) => Ok(v as u32),
            Err(e) => Err(
                message("invalid u32 metadata "@ + key + ": "@ + parse_error_text(e)),
            ),
        },
    }
}

/// The truth value under a key.
pub open spec fn flag_under(m: Entries, key: Seq<char>) -> Result<bool, ErrorView> {
    match required_text(m, key) {
        Err(e) => Err(e),
        Ok(t) => if t == "true"@ {
            Ok(true)
        } else if t == "false"@ {
            Ok(false)
        } else {
            Err(message("invalid bool metadata "@ + key + ": "@ + t))
        },
    }
}

/// A metadata text read as a single-precision number: its bits and how it is shown, or why it is
/// none.
#[derive(Debug)]
pub enum FloatReading {
    Value(u32, String),
    Invalid(String),
}

/// The bits of the number under a key, given what its text reads as.
pub open spec fn bits_under(m: Entries, key: Seq<char>, reading: FloatReading) -> Result<
    u32,
    ErrorView,
> {
    match required_text(m, key) {
        Err(e) => Err(e),
        Ok(_) => match reading {
            FloatReading::Value(bits, _) => Ok(bits),
            FloatReading::Invalid(reason) => Err(
                message("invalid f32 metadata "@ + key + ": "@ + reason@),
            ),
        },
    }
}

fn required_metadata(gguf: &GgufFile, key: &str) -> (r: Result<String, InferError>)
    ensures
        match r {
            Ok(t) => required_text(gguf@.metadata, key@) == Ok::<Seq<char>, ErrorView>(t@),
            Err(e) => required_text(gguf@.metadata, key@) == Err::<Seq<char>, ErrorView>(e@),
        },
{
    match metadata_value(&gguf.metadata, key) {
        Some(t) => Ok(t),
        None => Err(InferError::Message(String::from_str("missing ").concat(key))),
    }
}

/// The number under a metadata key.
pub fn metadata_u32(gguf: &GgufFile, key: &str) -> (r: Result<u32, InferError>)
    ensures
        infer_outcome(r, number_under(gguf@.metadata, key@)),
{
    let text = match required_metadata(gguf, key) {
        Err(e) => {
            return Err(e);
        },
        Ok(t) => t,
    };
    match parse_u32(text.as_str()) {
        Ok(v) => Ok(v),
        Err(e) => {
            let reason = e.message();
            Err(
                InferError::Message(
                    String::from_str("invalid u32 metadata ").concat(key).concat(": ").concat(
                        reason.as_str(),
                    ),
                ),
            )
        },
    }
}

/// The truth value under a metadata key.
pub fn metadata_bool(gguf: &GgufFile, key: &str) -> (r: Result<bool, InferError>)
    ensures
        infer_outcome(r, flag_under(gguf@.metadata, key@)),
{
    let text = match required_metadata(gguf, key) {
        Err(e) => {
            return Err(e);
        },
        Ok(t) => t,
    };
    if str_eq(text.as_str(), "true") {
        Ok(true)
    } else if str_eq(text.as_str(), "false") {
        Ok(false)
    } else {
        Err(
            InferError::Message(
                String::from_str("invalid bool metadata ").concat(key).concat(": ").concat(
                    text.as_str(),
                ),
            ),
        )
    }
}

/// The bits of the number under a metadata key, given what its text reads as.
pub fn metadata_f32(gguf: &GgufFile, key: &str, reading: &FloatReading) -> (r: Result<
    u32,
    InferError,
>)
    ensures
        infer_outcome(r, bits_under(gguf@.metadata, key@, *reading)),
{
    match required_metadata(gguf, key) {
        Err(e) => Err(e),
        Ok(_) => match reading {
            FloatReading::Value(bits, _) => Ok(*bits),
            FloatReading::Invalid(reason) => Err(
                InferError::Message(
                    String::from_str("invalid f32 metadata ").concat(key).concat(": ").concat(
                        reason.as_str(),
                    ),
                ),
            ),
        },
    }
}

// ---------------------------------------------------------------------
// One transformer
// ---------------------------------------------------------------------

/// The sizes of one transformer. Floating-point numbers are kept as their bits.
#[derive(Debug, Clone, Copy, PartialEq, Eq, Structural)]
pub struct ArGraphSpec {
    pub context_length: u32,
    pub embedding_length: u32,
    pub feed_forward_length: u32,
    pub block_count: u32,
    pub head_count: u32,
    pub head_count_kv: u32,
    pub head_dim: u32,
    pub q_size: u32,
    pub kv_size: u32,
    pub head_repeat: u32,
    pub rope_freq_base: u32,
    pub rms_norm_eps: u32,
    pub attention_qk_norm: bool,
}

/// What the sizes of one transformer are made from.
#[derive(Debug, Clone, Copy, PartialEq, Eq, Structural)]
pub struct ArGraphSpecParams {
    pub context_length: u32,
    pub embedding_length: u32,
    pub feed_forward_length: u32,
    pub block_count: u32,
    pub head_count: u32,
    pub head_count_kv: u32,
    pub head_dim: u32,
    pub rope_freq_base: u32,
    pub rms_norm_eps: u32,
    pub attention_qk_norm: bool,
}

/// The sizes of one transformer; products are those of 32-bit numbers.
pub open spec fn sizes_of(p: ArGraphSpecParams) -> Result<ArGraphSpec, ErrorView> {
    if p.head_count_kv == 0 || p.head_count % p.head_count_kv != 0 {
        Err(
            message(
                "invalid GQA head split: heads="@ + dec(p.head_count as nat) + ", kv_heads="@
                    + dec(p.head_count_kv as nat),
            ),
        )
    } else {
        Ok(
            ArGraphSpec {
                context_length: p.context_length,
                embedding_length: p.embedding_length,
                feed_forward_length: p.feed_forward_length,
                block_count: p.block_count,
                head_count: p.head_count,
                head_count_kv: p.head_count_kv,
                head_dim: p.head_dim,
                q_size: p.head_count.wrapping_mul(p.head_dim),
                kv_size: p.head_count_kv.wrapping_mul(p.head_dim),
                head_repeat: p.head_count / p.head_count_kv,
                rope_freq_base: p.rope_freq_base,
                rms_norm_eps: p.rms_norm_eps,
                attention_qk_norm: p.attention_qk_norm,
            },
        )
    }
}

impl ArGraphSpec {
    /// The sizes of one transformer.
    pub fn new(params: ArGraphSpecParams) -> (r: Result<ArGraphSpec, InferError>)
        ensures
            infer_outcome(r, sizes_of(params)),
    {
        if params.head_count_kv == 0 || params.head_count % params.head_count_kv != 0 {
            let a = dec_u64(params.head_count as u64);
            let b = dec_u64(params.head_count_kv as u64);
            return Err(
                InferError::Message(
                    String::from_str("invalid GQA head split: heads=").concat(
                        a.as_str(),
                    ).concat(", kv_heads=").concat(b.as_str()),
                ),
            );
        }
        let q_size: u32 = params.head_count.wrapping_mul(params.head_dim);
        let kv_size: u32 = params.head_count_kv.wrapping_mul(params.head_dim);
        Ok(
            ArGraphSpec {
                context_length: params.context_length,
                embedding_length: params.embedding_length,
                feed_forward_length: params.feed_forward_length,
                block_count: params.block_count,
                head_count: params.head_count,
                head_count_kv: params.head_count_kv,
                head_dim: params.head_dim,
                q_size,
                kv_size,
                head_repeat: params.head_count / params.head_count_kv,
                rope_freq_base: params.rope_freq_base,
                rms_norm_eps: params.rms_norm_eps,
                attention_qk_norm: params.attention_qk_norm,
            },
        )
    }
}

// ---------------------------------------------------------------------
// The cache of keys and values
// ---------------------------------------------------------------------

/// The sizes of the cache of keys and values.
#[derive(Debug, Clone, Copy, PartialEq, Eq, Structural)]
pub struct KvCacheSpec {
    pub ggml_type: GgmlType,
    pub head_dim: u32,
    pub head_count_kv: u32,
    pub block_count: u32,
}

/// How many bytes one cache takes: two for each element.
pub open spec fn cache_bytes(s: KvCacheSpec, max_seq_len: u32) -> nat {
    (s.head_dim as nat) * (s.head_count_kv as nat) * (max_seq_len as nat) * (s.block_count as nat)
        * 2
}

impl KvCacheSpec {
    /// The dimensions of one cache, the fastest first.
    pub fn dimensions(self, max_seq_len: u32) -> (r: [u32; 4])
        ensures
            r@ == seq![self.head_dim, self.head_count_kv, max_seq_len, self.block_count],
    {
        let r: [u32; 4] = [self.head_dim, self.head_count_kv, max_seq_len, self.block_count];
        assert(r@ =~= seq![self.head_dim, self.head_count_kv, max_seq_len, self.block_count]);
        r
    }

    /// How many bytes one cache takes.
    pub fn bytes_per_cache(self, max_seq_len: u32) -> (r: u64)
        requires
            cache_bytes(self, max_seq_len) <= u64::MAX,
        ensures
            r == cache_bytes(self, max_seq_len),
    {
        assert(self.head_dim as nat * self.head_count_kv as nat <= 0xffff_ffff * 0xffff_ffff)
            by (nonlinear_arith)
            requires
                self.head_dim <= 0xffff_ffff,
                self.head_count_kv <= 0xffff_ffff,
        ;
        let a: u128 = self.head_dim as u128 * self.head_count_kv as u128;
        assert(a * max_seq_len <= 0xffff_ffff * 0xffff_ffff * 0xffff_ffff) by (nonlinear_arith)
            requires
                a <= 0xffff_ffff * 0xffff_ffff,
                max_seq_len <= 0xffff_ffff,
        ;
        let b: u128 = a * max_seq_len as u128;
        assert(b * self.block_count * 2 == cache_bytes(self, max_seq_len));
        if self.block_count == 0 {
            assert(b * self.block_count == 0) by (nonlinear_arith)
                requires
                    self.block_count == 0,
            ;
            return 0;
        }
        assert(b <= u64::MAX) by (nonlinear_arith)
            requires
                b * self.block_count * 2 <= u64::MAX,
                self.block_count >= 1,
        ;
        let c: u64 = b as u64;
        c * self.block_count as u64 * 2
    }

    /// How many bytes keys and values take together.
    pub fn bytes_for_k_and_v(self, max_seq_len: u32) -> (r: u64)
        requires
            2 * cache_bytes(self, max_seq_len) <= u64::MAX,
        ensures
            r == 2 * cache_bytes(self, max_seq_len),
    {
        self.bytes_per_cache(max_seq_len) * 2
    }
}

// ---------------------------------------------------------------------
// Both transformers
// ---------------------------------------------------------------------

/// The shape of the two transformers of a model.
#[derive(Debug, Clone, Copy, PartialEq, Eq, Structural)]
pub struct DualArGraphSpec {
    pub slow: ArGraphSpec,
    pub fast: ArGraphSpec,
    pub kv_cache: KvCacheSpec,
    pub codebook_size: u32,
    pub num_codebooks: u32,
    pub semantic_begin_id: u32,
    pub semantic_end_id: u32,
    pub scale_codebook_embeddings: bool,
    pub tie_word_embeddings: bool,
    pub fast_has_project_in: bool,
}

/// What the four floating-point numbers in the metadata read as.
#[derive(Debug)]
pub struct FloatReadings {
    pub slow_rope_freq_base: FloatReading,
    pub slow_rms_norm_eps: FloatReading,
    pub fast_rope_freq_base: FloatReading,
    pub fast_rms_norm_eps: FloatReading,
}

/// How a floating-point number is shown.
pub open spec fn shown_float(reading: FloatReading) -> Seq<char> {
    match reading {
        FloatReading::Value(_, text) => text@,
        FloatReading::Invalid(reason) => reason@,
    }
}

fn float_text(reading: &FloatReading) -> (r: String)
    ensures
        r@ == shown_float(*reading),
{
    match reading {
        FloatReading::Value(_, text) => text.clone(),
        FloatReading::Invalid(reason) => reason.clone(),
    }
}

/// Whether single-precision bits stand for a number within one millionth of one million. Around it
/// the numbers lie further apart than that.
pub open spec fn is_rope_base(bits: u32) -> bool {
    bits == 0x4974_2400
}

/// Whether single-precision bits stand for a number within one millionth of one millionth: from
/// zero to twice it, or a negative number too small to tell the distance from that of zero.
pub open spec fn is_norm_eps(bits: u32) -> bool {
    bits <= 0x3606_37bd || (0x8000_0000 <= bits && bits < 0xa980_0000)
}

/// The list with a text added where there is something to say.
pub open spec fn noted(list: Seq<Seq<char>>, bad: bool, text: Seq<char>) -> Seq<Seq<char>> {
    if bad {
        list.push(text)
    } else {
        list
    }
}

/// What is said of a number that is not the expected one.
pub open spec fn mismatch(name: Seq<char>, actual: u32, expected: u32) -> Seq<char> {
    name + ": expected "@ + dec(expected as nat) + ", got "@ + dec(actual as nat)
}

/// The list with what is wrong with a number added.
pub open spec fn checked(
    list: Seq<Seq<char>>,
    name: Seq<char>,
    actual: u32,
    expected: u32,
) -> Seq<Seq<char>> {
    noted(list, actual != expected, mismatch(name, actual, expected))
}

/// What is wrong with the sizes of the slow transformer.
pub open spec fn slow_size_failures(g: DualArGraphSpec) -> Seq<Seq<char>> {
    let a = checked(
        Seq::empty(),
        "slow.context_length"@,
        g.slow.context_length,
        SLOW_CONTEXT_LENGTH,
    );
    let b = checked(a, "slow.embedding_length"@, g.slow.embedding_length, 2560);
    let c = checked(b, "slow.feed_forward_length"@, g.slow.feed_forward_length, 9728);
    let d = checked(c, "slow.block_count"@, g.slow.block_count, 36);
    let e = checked(d, "slow.head_count"@, g.slow.head_count, ATTENTION_HEADS);
    let f = checked(e, "slow.head_count_kv"@, g.slow.head_count_kv, KV_HEADS);
    checked(f, "slow.head_dim"@, g.slow.head_dim, HEAD_DIM)
}

/// What is wrong with the sizes of both transformers.
pub open spec fn size_failures(g: DualArGraphSpec) -> Seq<Seq<char>> {
    let a = checked(
        slow_size_failures(g),
        "fast.context_length"@,
        g.fast.context_length,
        FAST_CONTEXT_LENGTH,
    );
    let b = checked(a, "fast.embedding_length"@, g.fast.embedding_length, 2560);
    let c = checked(b, "fast.feed_forward_length"@, g.fast.feed_forward_length, 9728);
    let d = checked(c, "fast.block_count"@, g.fast.block_count, 4);
    let e = checked(d, "fast.head_count"@, g.fast.head_count, ATTENTION_HEADS);
    let f = checked(e, "fast.head_count_kv"@, g.fast.head_count_kv, KV_HEADS);
    checked(f, "fast.head_dim"@, g.fast.head_dim, HEAD_DIM)
}

/// What is wrong with the numbers of a model.
pub open spec fn number_failures(g: DualArGraphSpec) -> Seq<Seq<char>> {
    let a = checked(size_failures(g), "codebook_size"@, g.codebook_size, CODEBOOK_SIZE);
    let b = checked(a, "num_codebooks"@, g.num_codebooks, NUM_CODEBOOKS);
    let c = checked(b, "semantic_begin_id"@, g.semantic_begin_id, SEMANTIC_BEGIN_ID);
    checked(c, "semantic_end_id"@, g.semantic_end_id, SEMANTIC_END_ID)
}

/// What is wrong with the shape of a model, all of it, in a fixed order.
pub open spec fn graph_failures(g: DualArGraphSpec, f: FloatReadings) -> Seq<Seq<char>> {
    let a = noted(
        number_failures(g),
        !is_rope_base(g.slow.rope_freq_base),
        "slow.rope_freq_base: got "@ + shown_float(f.slow_rope_freq_base),
    );
    let b = noted(
        a,
        !is_rope_base(g.fast.rope_freq_base),
        "fast.rope_freq_base: got "@ + shown_float(f.fast_rope_freq_base),
    );
    let c = noted(
        b,
        !is_norm_eps(g.slow.rms_norm_eps),
        "slow.rms_norm_eps: got "@ + shown_float(f.slow_rms_norm_eps),
    );
    let d = noted(
        c,
        !is_norm_eps(g.fast.rms_norm_eps),
        "fast.rms_norm_eps: got "@ + shown_float(f.fast_rms_norm_eps),
    );
    let e = noted(d, !g.slow.attention_qk_norm, "slow.attention_qk_norm should be true"@);
    let h = noted(e, g.fast.attention_qk_norm, "fast.attention_qk_norm should be false"@);
    let i = noted(h, !g.scale_codebook_embeddings, "scale_codebook_embeddings should be true"@);
    let j = noted(i, !g.tie_word_embeddings, "tie_word_embeddings should be true"@);
    noted(j, g.fast_has_project_in, "fast_project_in should be false for s2-pro-f16"@)
}

fn note(list: &mut Vec<String>, bad: bool, text: &str)
    ensures
        strings(final(list)@) == noted(strings(old(list)@), bad, text@),
{
    if bad {
        let ghost before = list@;
        list.push(String::from_str(text));
        assert(strings(list@) =~= strings(before).push(text@));
    }
}

fn note_float(list: &mut Vec<String>, bad: bool, name: &str, reading: &FloatReading)
    ensures
        strings(final(list)@) == noted(
            strings(old(list)@),
            bad,
            name@ + shown_float(*reading),
        ),
{
    let shown = float_text(reading);
    let text = String::from_str(name).concat(shown.as_str());
    note(list, bad, text.as_str());
}

fn check(list: &mut Vec<String>, name: &str, actual: u32, expected: u32)
    ensures
        strings(final(list)@) == checked(strings(old(list)@), name@, actual, expected),
{
    let e = dec_u64(expected as u64);
    let a = dec_u64(actual as u64);
    let text = String::from_str(name).concat(": expected ").concat(e.as_str()).concat(
        ", got ",
    ).concat(a.as_str());
    note(list, actual != expected, text.as_str());
}

/// The error that lists what is wrong with the shape of a model, if anything is.
pub open spec fn graph_error(g: DualArGraphSpec, f: FloatReadings) -> Option<ErrorView> {
    if graph_failures(g, f).len() == 0 {
        None
    } else {
        Some(
            message(
                "graph spec validation failed:\n"@ + joined(graph_failures(g, f), "\n"@),
            ),
        )
    }
}

/// The slow transformer's width of a head.
pub open spec fn slow_head_dim(m: Entries, qk_norm: bool) -> Result<u32, ErrorView> {
    if qk_norm {
        Ok(128)
    } else {
        match number_under(m, "fish-speech.embedding_length"@) {
            Err(e) => Err(e),
            Ok(width) => match number_under(m, "fish-speech.attention.head_count"@) {
                Err(e) => Err(e),
                Ok(heads) => Ok((width / heads) as u32),
            },
        }
    }
}

/// What the slow transformer's sizes are made from.
pub open spec fn slow_params(m: Entries, qk_norm: bool, head_dim: u32, f: FloatReadings) -> Result<
    ArGraphSpecParams,
    ErrorView,
> {
    match number_under(m, "fish-speech.context_length"@) {
        Err(e) => Err(e),
        Ok(context_length) => match number_under(m, "fish-speech.embedding_length"@) {
            Err(e) => Err(e),
            Ok(embedding_length) => match number_under(m, "fish-speech.feed_forward_length"@) {
                Err(e) => Err(e),
                Ok(feed_forward_length) => match number_under(m, "fish-speech.block_count"@) {
                    Err(e) => Err(e),
                    Ok(block_count) => match number_under(m, "fish-speech.attention.head_count"@) {
                        Err(e) => Err(e),
                        Ok(head_count) => match number_under(
                            m,
                            "fish-speech.attention.head_count_kv"@,
                        ) {
                            Err(e) => Err(e),
                            Ok(head_count_kv) => match bits_under(
                                m,
                                "fish-speech.rope.freq_base"@,
                                f.slow_rope_freq_base,
                            ) {
                                Err(e) => Err(e),
                                Ok(rope_freq_base) => match bits_under(
                                    m,
                                    "fish-speech.attention.layer_norm_rms_epsilon"@,
                                    f.slow_rms_norm_eps,
                                ) {
                                    Err(e) => Err(e),
                                    Ok(rms_norm_eps) => Ok(
                                        ArGraphSpecParams {
                                            context_length,
                                            embedding_length,
                                            feed_forward_length,
                                            block_count,
                                            head_count,
                                            head_count_kv,
                                            head_dim,
                                            rope_freq_base,
                                            rms_norm_eps,
                                            attention_qk_norm: qk_norm,
                                        },
                                    ),
                                },
                            },
                        },
                    },
                },
            },
        },
    }
}

/// What the fast transformer's sizes are made from.
pub open spec fn fast_params(m: Entries, f: FloatReadings) -> Result<ArGraphSpecParams, ErrorView> {
    match number_under(m, "fish_speech.fast_context_length"@) {
        Err(e) => Err(e),
        Ok(context_length) => match number_under(m, "fish_speech.fast_embedding_length"@) {
            Err(e) => Err(e),
            Ok(embedding_length) => match number_under(m, "fish_speech.fast_feed_forward_length"@) {
                Err(e) => Err(e),
                Ok(feed_forward_length) => match number_under(m, "fish_speech.fast_block_count"@) {
                    Err(e) => Err(e),
                    Ok(block_count) => match number_under(m, "fish_speech.fast_head_count"@) {
                        Err(e) => Err(e),
                        Ok(head_count) => match number_under(
                            m,
                            "fish_speech.fast_head_count_kv"@,
                        ) {
                            Err(e) => Err(e),
                            Ok(head_count_kv) => match number_under(
                                m,
                                "fish_speech.fast_head_dim"@,
                            ) {
                                Err(e) => Err(e),
                                Ok(head_dim) => match bits_under(
                                    m,
                                    "fish_speech.fast_rope_freq_base"@,
                                    f.fast_rope_freq_base,
                                ) {
                                    Err(e) => Err(e),
                                    Ok(rope_freq_base) => match bits_under(
                                        m,
                                        "fish_speech.fast_layer_norm_rms_eps"@,
                                        f.fast_rms_norm_eps,
                                    ) {
                                        Err(e) => Err(e),
                                        Ok(rms_norm_eps) => match flag_under(
                                            m,
                                            "fish_speech.fast_attention_qk_norm"@,
                                        ) {
                                            Err(e) => Err(e),
                                            Ok(attention_qk_norm) => Ok(
                                                ArGraphSpecParams {
                                                    context_length,
                                                    embedding_length,
                                                    feed_forward_length,
                                                    block_count,
                                                    head_count,
                                                    head_count_kv,
                                                    head_dim,
                                                    rope_freq_base,
                                                    rms_norm_eps,
                                                    attention_qk_norm,
                                                },
                                            ),
                                        },
                                    },
                                },
                            },
                        },
                    },
                },
            },
        },
    }
}

/// The slow transformer that metadata describes.
pub open spec fn slow_graph(m: Entries, f: FloatReadings) -> Result<ArGraphSpec, ErrorView> {
    match flag_under(m, "fish_speech.attention_qk_norm"@) {
        Err(e) => Err(e),
        Ok(qk_norm) => match slow_head_dim(m, qk_norm) {
            Err(e) => Err(e),
            Ok(head_dim) => match slow_params(m, qk_norm, head_dim, f) {
                Err(e) => Err(e),
                Ok(params) => sizes_of(params),
            },
        },
    }
}

/// The fast transformer that metadata describes.
pub open spec fn fast_graph(m: Entries, f: FloatReadings) -> Result<ArGraphSpec, ErrorView> {
    match fast_params(m, f) {
        Err(e) => Err(e),
        Ok(params) => sizes_of(params),
    }
}

/// The shape that metadata describes, whether it is a known one or not.
pub open spec fn described_graph(m: Entries, f: FloatReadings) -> Result<
    DualArGraphSpec,
    ErrorView,
> {
    match slow_graph(m, f) {
        Err(e) => Err(e),
        Ok(slow) => match fast_graph(m, f) {
            Err(e) => Err(e),
            Ok(fast) => match number_under(m, "fish_speech.codebook_size"@) {
                Err(e) => Err(e),
                Ok(codebook_size) => match number_under(m, "fish_speech.num_codebooks"@) {
                    Err(e) => Err(e),
                    Ok(num_codebooks) => match number_under(m, "fish_speech.semantic_begin_id"@) {
                        Err(e) => Err(e),
                        Ok(semantic_begin_id) => match number_under(
                            m,
                            "fish_speech.semantic_end_id"@,
                        ) {
                            Err(e) => Err(e),
                            Ok(semantic_end_id) => match flag_under(
                                m,
                                "fish_speech.scale_codebook_embeddings"@,
                            ) {
                                Err(e) => Err(e),
                                Ok(scale_codebook_embeddings) => match flag_under(
                                    m,
                                    "fish_speech.tie_word_embeddings"@,
                                ) {
                                    Err(e) => Err(e),
                                    Ok(tie_word_embeddings) => match flag_under(
                                        m,
                                        "fish_speech.fast_project_in"@,
                                    ) {
                                        Err(e) => Err(e),
                                        Ok(fast_has_project_in) => Ok(
                                            DualArGraphSpec {
                                                slow,
                                                fast,
                                                kv_cache: KvCacheSpec {
                                                    ggml_type: GgmlType::F16,
                                                    head_dim: slow.head_dim,
                                                    head_count_kv: slow.head_count_kv,
                                                    block_count: slow.block_count,
                                                },
                                                codebook_size,
                                                num_codebooks,
                                                semantic_begin_id,
                                                semantic_end_id,
                                                scale_codebook_embeddings,
                                                tie_word_embeddings,
                                                fast_has_project_in,
                                            },
                                        ),
                                    },
                                },
                            },
                        },
                    },
                },
            },
        },
    }
}

/// The shape that metadata describes, where it is the known one.
pub open spec fn graph_of(m: Entries, f: FloatReadings) -> Result<DualArGraphSpec, ErrorView> {
    match described_graph(m, f) {
        Err(e) => Err(e),
        Ok(g) => match graph_error(g, f) {
            Some(e) => Err(e),
            None => Ok(g),
        },
    }
}

/// Whether the width of a head would have to be divided among no heads.
pub open spec fn divides_by_no_heads(m: Entries) -> bool {
    flag_under(m, "fish_speech.attention_qk_norm"@) == Ok::<bool, ErrorView>(false)
        && number_under(m, "fish-speech.attention.head_count"@) == Ok::<u32, ErrorView>(0)
}

/// Whether the size of a head would be a width divided by no heads.
pub fn is_headless(gguf: &GgufFile) -> (r: bool)
    ensures
        r == divides_by_no_heads(gguf@.metadata),
{
    let plain: bool = match metadata_bool(gguf, "fish_speech.attention_qk_norm") {
        Ok(v) => !v,
        Err(_) => false,
    };
    let none: bool = match metadata_u32(gguf, "fish-speech.attention.head_count") {
        Ok(n) => n == 0,
        Err(_) => false,
    };
    plain && none
}

fn read_slow(gguf: &GgufFile, f: &FloatReadings) -> (r: Result<ArGraphSpec, InferError>)
    requires
        !divides_by_no_heads(gguf@.metadata),
    ensures
        infer_outcome(r, slow_graph(gguf@.metadata, *f)),
{
    let qk_norm: bool = match metadata_bool(gguf, "fish_speech.attention_qk_norm") {
        Err(e) => {
            return Err(e);
        },
        Ok(v) => v,
    };
    let head_dim: u32 = if qk_norm {
        128
    } else {
        let width: u32 = match metadata_u32(gguf, "fish-speech.embedding_length") {
            Err(e) => {
                return Err(e);
            },
            Ok(v) => v,
        };
        let heads: u32 = match metadata_u32(gguf, "fish-speech.attention.head_count") {
            Err(e) => {
                return Err(e);
            },
            Ok(v) => v,
        };
        width / heads
    };
    let context_length: u32 = match metadata_u32(gguf, "fish-speech.context_length") {
        Err(e) => {
            return Err(e);
        },
        Ok(v) => v,
    };
    let embedding_length: u32 = match metadata_u32(gguf, "fish-speech.embedding_length") {
        Err(e) => {
            return Err(e);
        },
        Ok(v) => v,
    };
    let feed_forward_length: u32 = match metadata_u32(gguf, "fish-speech.feed_forward_length") {
        Err(e) => {
            return Err(e);
        },
        Ok(v) => v,
    };
    let block_count: u32 = match metadata_u32(gguf, "fish-speech.block_count") {
        Err(e) => {
            return Err(e);
        },
        Ok(v) => v,
    };
    let head_count: u32 = match metadata_u32(gguf, "fish-speech.attention.head_count") {
        Err(e) => {
            return Err(e);
        },
        Ok(v) => v,
    };
    let head_count_kv: u32 = match metadata_u32(gguf, "fish-speech.attention.head_count_kv") {
        Err(e) => {
            return Err(e);
        },
        Ok(v) => v,
    };
    let rope_freq_base: u32 = match metadata_f32(
        gguf,
        "fish-speech.rope.freq_base",
        &f.slow_rope_freq_base,
    ) {
        Err(e) => {
            return Err(e);
        },
        Ok(v) => v,
    };
    let rms_norm_eps: u32 = match metadata_f32(
        gguf,
        "fish-speech.attention.layer_norm_rms_epsilon",
        &f.slow_rms_norm_eps,
    ) {
        Err(e) => {
            return Err(e);
        },
        Ok(v) => v,
    };
    ArGraphSpec::new(
        ArGraphSpecParams {
            context_length,
            embedding_length,
            feed_forward_length,
            block_count,
            head_count,
            head_count_kv,
            head_dim,
            rope_freq_base,
            rms_norm_eps,
            attention_qk_norm: qk_norm,
        },
    )
}

fn read_fast(gguf: &GgufFile, f: &FloatReadings) -> (r: Result<ArGraphSpec, InferError>)
    ensures
        infer_outcome(r, fast_graph(gguf@.metadata, *f)),
{
    let context_length: u32 = match metadata_u32(gguf, "fish_speech.fast_context_length") {
        Err(e) => {
            return Err(e);
        },
        Ok(v) => v,
    };
    let embedding_length: u32 = match metadata_u32(gguf, "fish_speech.fast_embedding_length") {
        Err(e) => {
            return Err(e);
        },
        Ok(v) => v,
    };
    let feed_forward_length: u32 = match metadata_u32(
        gguf,
        "fish_speech.fast_feed_forward_length",
    ) {
        Err(e) => {
            return Err(e);
        },
        Ok(v) => v,
    };
    let block_count: u32 = match metadata_u32(gguf, "fish_speech.fast_block_count") {
        Err(e) => {
            return Err(e);
        },
        Ok(v) => v,
    };
    let head_count: u32 = match metadata_u32(gguf, "fish_speech.fast_head_count") {
        Err(e) => {
            return Err(e);
        },
        Ok(v) => v,
    };
    let head_count_kv: u32 = match metadata_u32(gguf, "fish_speech.fast_head_count_kv") {
        Err(e) => {
            return Err(e);
        },
        Ok(v) => v,
    };
    let head_dim: u32 = match metadata_u32(gguf, "fish_speech.fast_head_dim") {
        Err(e) => {
            return Err(e);
        },
        Ok(v) => v,
    };
    let rope_freq_base: u32 = match metadata_f32(
        gguf,
        "fish_speech.fast_rope_freq_base",
        &f.fast_rope_freq_base,
    ) {
        Err(e) => {
            return Err(e);
        },
        Ok(v) => v,
    };
    let rms_norm_eps: u32 = match metadata_f32(
        gguf,
        "fish_speech.fast_layer_norm_rms_eps",
        &f.fast_rms_norm_eps,
    ) {
        Err(e) => {
            return Err(e);
        },
        Ok(v) => v,
    };
    let attention_qk_norm: bool = match metadata_bool(gguf, "fish_speech.fast_attention_qk_norm") {
        Err(e) => {
            return Err(e);
        },
        Ok(v) => v,
    };
    ArGraphSpec::new(
        ArGraphSpecParams {
            context_length,
            embedding_length,
            feed_forward_length,
            block_count,
            head_count,
            head_count_kv,
            head_dim,
            rope_freq_base,
            rms_norm_eps,
            attention_qk_norm,
        },
    )
}

impl DualArGraphSpec {
    /// The shape that a file's metadata describes, where it is the known one.
    pub fn from_gguf(gguf: &GgufFile, floats: &FloatReadings) -> (r: Result<
        DualArGraphSpec,
        InferError,
    >)
        requires
            !divides_by_no_heads(gguf@.metadata),
        ensures
            infer_outcome(r, graph_of(gguf@.metadata, *floats)),
    {
        let slow: ArGraphSpec = match read_slow(gguf, floats) {
            Err(e) => {
                return Err(e);
            },
            Ok(v) => v,
        };
        let fast: ArGraphSpec = match read_fast(gguf, floats) {
            Err(e) => {
                return Err(e);
            },
            Ok(v) => v,
        };
        let codebook_size: u32 = match metadata_u32(gguf, "fish_speech.codebook_size") {
            Err(e) => {
                return Err(e);
            },
            Ok(v) => v,
        };
        let num_codebooks: u32 = match metadata_u32(gguf, "fish_speech.num_codebooks") {
            Err(e) => {
                return Err(e);
            },
            Ok(v) => v,
        };
        let semantic_begin_id: u32 = match metadata_u32(gguf, "fish_speech.semantic_begin_id") {
            Err(e) => {
                return Err(e);
            },
            Ok(v) => v,
        };
        let semantic_end_id: u32 = match metadata_u32(gguf, "fish_speech.semantic_end_id") {
            Err(e) => {
                return Err(e);
            },
            Ok(v) => v,
        };
        let scale_codebook_embeddings: bool = match metadata_bool(
            gguf,
            "fish_speech.scale_codebook_embeddings",
        ) {
            Err(e) => {
                return Err(e);
            },
            Ok(v) => v,
        };
        let tie_word_embeddings: bool = match metadata_bool(
            gguf,
            "fish_speech.tie_word_embeddings",
        ) {
            Err(e) => {
                return Err(e);
            },
            Ok(v) => v,
        };
        let fast_has_project_in: bool = match metadata_bool(gguf, "fish_speech.fast_project_in") {
            Err(e) => {
                return Err(e);
            },
            Ok(v) => v,
        };
        let spec = DualArGraphSpec {
            slow,
            fast,
            kv_cache: KvCacheSpec {
                ggml_type: GgmlType::F16,
                head_dim: slow.head_dim,
                head_count_kv: slow.head_count_kv,
                block_count: slow.block_count,
            },
            codebook_size,
            num_codebooks,
            semantic_begin_id,
            semantic_end_id,
            scale_codebook_embeddings,
            tie_word_embeddings,
            fast_has_project_in,
        };
        match spec.validate(floats) {
            Err(e) => Err(e),
            Ok(_) => Ok(spec),
        }
    }

    /// How many numbers stand for one token: the token and one for each codebook.
    pub fn codebook_input_dim(&self) -> (r: u32)
        requires
            self.num_codebooks < u32::MAX,
        ensures
            r == self.num_codebooks + 1,
    {
        self.num_codebooks + 1
    }

    fn size_notes(&self) -> (r: Vec<String>)
        ensures
            strings(r@) == size_failures(*self),
    {
        let mut list: Vec<String> = Vec::new();
        assert(strings(list@) =~= Seq::<Seq<char>>::empty());
        check(&mut list, "slow.context_length", self.slow.context_length, SLOW_CONTEXT_LENGTH);
        check(&mut list, "slow.embedding_length", self.slow.embedding_length, 2560);
        check(&mut list, "slow.feed_forward_length", self.slow.feed_forward_length, 9728);
        check(&mut list, "slow.block_count", self.slow.block_count, 36);
        check(&mut list, "slow.head_count", self.slow.head_count, ATTENTION_HEADS);
        check(&mut list, "slow.head_count_kv", self.slow.head_count_kv, KV_HEADS);
        check(&mut list, "slow.head_dim", self.slow.head_dim, HEAD_DIM);
        assert(strings(list@) == slow_size_failures(*self));
        check(&mut list, "fast.context_length", self.fast.context_length, FAST_CONTEXT_LENGTH);
        check(&mut list, "fast.embedding_length", self.fast.embedding_length, 2560);
        check(&mut list, "fast.feed_forward_length", self.fast.feed_forward_length, 9728);
        check(&mut list, "fast.block_count", self.fast.block_count, 4);
        check(&mut list, "fast.head_count", self.fast.head_count, ATTENTION_HEADS);
        check(&mut list, "fast.head_count_kv", self.fast.head_count_kv, KV_HEADS);
        check(&mut list, "fast.head_dim", self.fast.head_dim, HEAD_DIM);
        list
    }

    /// Checks that the shape is the known one. The error lists everything that differs.
    pub fn validate(&self, floats: &FloatReadings) -> (r: Result<(), InferError>)
        ensures
            match r {
                Ok(_) => graph_error(*self, *floats) is None,
                Err(e) => graph_error(*self, *floats) == Some(e@),
            },
    {
        let mut list = self.size_notes();
        check(&mut list, "codebook_size", self.codebook_size, CODEBOOK_SIZE);
        check(&mut list, "num_codebooks", self.num_codebooks, NUM_CODEBOOKS);
        check(&mut list, "semantic_begin_id", self.semantic_begin_id, SEMANTIC_BEGIN_ID);
        check(&mut list, "semantic_end_id", self.semantic_end_id, SEMANTIC_END_ID);
        assert(strings(list@) == number_failures(*self));
        note_float(
            &mut list,
            self.slow.rope_freq_base != 0x4974_2400,
            "slow.rope_freq_base: got ",
            &floats.slow_rope_freq_base,
        );
        note_float(
            &mut list,
            self.fast.rope_freq_base != 0x4974_2400,
            "fast.rope_freq_base: got ",
            &floats.fast_rope_freq_base,
        );
        let slow_eps: u32 = self.slow.rms_norm_eps;
        note_float(
            &mut list,
            !(slow_eps <= 0x3606_37bd || (0x8000_0000 <= slow_eps && slow_eps < 0xa980_0000)),
            "slow.rms_norm_eps: got ",
            &floats.slow_rms_norm_eps,
        );
        let fast_eps: u32 = self.fast.rms_norm_eps;
        note_float(
            &mut list,
            !(fast_eps <= 0x3606_37bd || (0x8000_0000 <= fast_eps && fast_eps < 0xa980_0000)),
            "fast.rms_norm_eps: got ",
            &floats.fast_rms_norm_eps,
        );
        note(&mut list, !self.slow.attention_qk_norm, "slow.attention_qk_norm should be true");
        note(&mut list, self.fast.attention_qk_norm, "fast.attention_qk_norm should be false");
        note(
            &mut list,
            !self.scale_codebook_embeddings,
            "scale_codebook_embeddings should be true",
        );
        note(&mut list, !self.tie_word_embeddings, "tie_word_embeddings should be true");
        note(
            &mut list,
            self.fast_has_project_in,
            "fast_project_in should be false for s2-pro-f16",
        );
        proof {
            assert(strings(list@) == graph_failures(*self, *floats));
            assert(strings(list@).len() == list@.len());
        }
        if list.len() == 0 {
            Ok(())
        } else {
            let body = join_strings(&list, "\n");
            Err(
                InferError::Message(
                    String::from_str("graph spec validation failed:\n").concat(body.as_str()),
                ),
            )
        }
    }
}

// ---------------------------------------------------------------------
// What holds of an accepted shape
// ---------------------------------------------------------------------

/// An accepted shape has every size the model is known by; no product was cut short.
pub proof fn accepted_shape_is_the_known_one(g: DualArGraphSpec, f: FloatReadings)
    requires
        graph_error(g, f) is None,
    ensures
        g.slow.context_length == SLOW_CONTEXT_LENGTH,
        g.slow.embedding_length == 2560,
        g.slow.feed_forward_length == 9728,
        g.slow.block_count == 36,
        g.slow.head_count == 32 && g.slow.head_count_kv == 8 && g.slow.head_dim == 128,
        g.fast.context_length == FAST_CONTEXT_LENGTH,
        g.fast.embedding_length == 2560,
        g.fast.feed_forward_length == 9728,
        g.fast.block_count == 4,
        g.fast.head_count == 32 && g.fast.head_count_kv == 8 && g.fast.head_dim == 128,
        g.codebook_size == 4096 && g.num_codebooks == 10,
        g.semantic_begin_id == 151678 && g.semantic_end_id == 155773,
        is_rope_base(g.slow.rope_freq_base) && is_rope_base(g.fast.rope_freq_base),
        is_norm_eps(g.slow.rms_norm_eps) && is_norm_eps(g.fast.rms_norm_eps),
        g.slow.attention_qk_norm && !g.fast.attention_qk_norm,
        g.scale_codebook_embeddings && g.tie_word_embeddings && !g.fast_has_project_in,
{
}

/// In an accepted file every semantic token has a code of its own in the semantic codebook.
pub proof fn semantic_tokens_fill_the_codebook(m: Entries, f: FloatReadings)
    requires
        graph_of(m, f) is Ok,
    ensures
        graph_of(m, f)->Ok_0.semantic_end_id - graph_of(m, f)->Ok_0.semantic_begin_id + 1
            == graph_of(m, f)->Ok_0.codebook_size,
        graph_of(m, f)->Ok_0.slow.q_size == 4096,
        graph_of(m, f)->Ok_0.slow.kv_size == 1024,
        graph_of(m, f)->Ok_0.slow.head_repeat == 4,
        graph_of(m, f)->Ok_0.kv_cache.block_count == 36,
{
    let g = graph_of(m, f)->Ok_0;
    accepted_shape_is_the_known_one(g, f);
    assert(g.slow.head_repeat == g.slow.head_count / g.slow.head_count_kv);
    assert(32u32 / 8u32 == 4u32);
}

} // verus!
