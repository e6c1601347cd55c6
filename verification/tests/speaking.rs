use fish_s2::chosen::{
    apply_softmax, sample_semantic_token, sample_token, sample_token_by_draw,
};
use fish_s2::engine::{
    check_format, has_workdir_reference, reply_to, CachedReference, EngineBackend, EngineConfig,
    ReferenceCache, ReferenceCacheKey, ReferenceChoice, SynthesisRequest, TtsReply,
};
use fish_s2::error::InferError;
use fish_s2::gguf::GgmlType;
use fish_s2::generate::{
    build_step_input, compact_codes, semantic_to_codebook_id, CodesRun, GenerateParams, SemanticRun,
};
use fish_s2::graph::{
    ArGraphSpec, DualArGraphSpec, KvCacheSpec, FAST_AR_LAYERS, SLOW_AR_LAYERS,
};
use fish_s2::half::f16_bits_to_f32;
use fish_s2::fast_run::CodebookRun;
use fish_s2::numeric::{Calc, Op};
use fish_s2::pipeline::{
    reference_prompt_codes, require_file, validate_prompt_pair, RustPipelineConfig,
    RustSynthesisOptions,
};
use fish_s2::patterns::check_pattern;
use fish_s2::prompt::{
    build_prompt, transpose_to_time_major, PromptBuildOptions, PromptCodes, PromptCodesFile,
    PromptTensor,
};
use fish_s2::registry::{root_specs, FastArLayerWeights, SlowArLayerWeights};
use fish_s2::sampling::{
    apply_semantic_bias, build_semantic_bias, candidate_ids, semantic_mask_logits, Judge, Relation,
    SamplerParams, SeededRng,
};
use fish_s2::slow_ar::SlowArDecodeProfile;
use fish_s2::tokenizer::{
    bytelevel_encode_utf8, gpt2_byte_to_unicode, parse_token_ids_csv, S2Tokenizer,
    S2TokenizerConfig,
};
use fish_s2::tokenizer_s2cpp::{
    pre_tokenize, AddedToken, MergeEntry, S2CppBpeTokenizer, TokenizerDocument, TokenizerModel,
};
use fish_s2::waveform::CodecReferenceAudioResult;

fn op(o: Op, a: f32, b: f32, c: f32) -> f32 {
    match o {
        Op::MulAdd => a + b * c,
        Op::Plus => a + b,
        Op::Minus => a - b,
        Op::Times => a * b,
        Op::Over => a / b,
        Op::Larger => a.max(b),
        Op::Raise => (a - b).exp(),
        Op::Weigh => a * b * c,
        Op::Gate => a * (1.0 / (1.0 + (-a).exp())) * b,
        Op::Snake => {
            let s = if b.abs() < 1e-8 { 1e-8 } else { b };
            let sin = (s * a).sin();
            a + sin * sin / s
        }
        Op::Gelu => 0.5 * a * (1.0 + (a * std::f32::consts::FRAC_1_SQRT_2).tanh()),
        Op::Tanh => a.tanh(),
        Op::Root => a.sqrt(),
        Op::Length => a.max(1e-12).sqrt(),
        Op::OverCount(n) => a / n as f32,
        Op::GateOver => a / (1.0 + (-a).exp()) * b,
        Op::NormScale(n, eps) => (a / n as f32 + f32::from_bits(eps)).sqrt().recip(),
        Op::ScaleBy(bits) => a * f32::from_bits(bits),
        Op::HeadScale(n) => a * (n as f32).sqrt().recip(),
        Op::RootOver(n) => 1.0 / (n as f32).sqrt(),
        Op::Cos(position, place, head_dim, base) => angle(position, place, head_dim, base).cos(),
        Op::Sin(position, place, head_dim, base) => angle(position, place, head_dim, base).sin(),
        Op::Half(bits) => f32::from_bits(f16_bits_to_f32(bits)),
        Op::Single(bits) => f32::from_bits(bits),
        Op::Sample(value, full) => value as f32 / full as f32,
        Op::Temper(bits) => {
            let t = f32::from_bits(bits);
            if t > 0.0 {
                ((a - b) / t).exp()
            } else if (a - b).abs() < 1e-6 {
                1.0
            } else {
                0.0
            }
        }
        Op::Share => {
            if b > 0.0 {
                a / b
            } else {
                a
            }
        }
        Op::Draw(fraction) => {
            let unit = fraction as f64 / (1u64 << 53) as f64;
            (unit as f32).clamp(0.0, 1.0 - 1e-7)
        }
    }
}

fn angle(position: usize, place: usize, head_dim: usize, base: u32) -> f32 {
    position as f32 / f32::from_bits(base).powf(place as f32 / head_dim as f32)
}

fn calc() -> Calc<f32, fn(Op, f32, f32, f32) -> f32> {
    Calc { zero: 0.0, op }
}

fn bits(v: f32) -> u32 {
    v.to_bits()
}

fn holds(o: Relation, a: f32, b: f32) -> bool {
    match o {
        Relation::AtLeast => a >= b,
        Relation::Below => a < b,
    }
}

fn judge() -> Judge<fn(f32) -> u32, fn(Relation, f32, f32) -> bool> {
    Judge { bits, holds }
}

const MASKED: f32 = f32::NEG_INFINITY;

fn params(temperature: f32, top_p: f32, top_k: i32) -> SamplerParams {
    SamplerParams {
        temperature: temperature.to_bits(),
        top_p: top_p.to_bits(),
        top_k,
    }
}

fn sample(logits: &[f32], p: &SamplerParams, forced: Option<u32>, rng: &mut SeededRng) -> u32 {
    sample_token(logits, p, forced, rng, &calc(), &judge())
}

// ---------------------------------------------------------------------
// Sampling
// ---------------------------------------------------------------------

#[test]
fn semantic_mask_leaves_only_allowed_ids_finite() {
    let mut logits = vec![1.0, 2.0, 3.0, 4.0, 5.0];
    semantic_mask_logits(&mut logits, 1, 2, Some(4), false, MASKED);
    assert!(logits[0].is_infinite() && logits[0].is_sign_negative());
    assert_eq!(logits[1], 2.0);
    assert_eq!(logits[2], 3.0);
    assert!(logits[3].is_infinite());
    assert_eq!(logits[4], 5.0);
}

#[test]
fn semantic_mask_can_block_im_end() {
    let mut logits = vec![0.1, 0.2, 0.3, 0.4, 0.5];
    semantic_mask_logits(&mut logits, 1, 2, Some(4), true, MASKED);
    assert!(logits[4].is_infinite() && logits[4].is_sign_negative());
}

#[test]
fn apply_semantic_bias_zeros_disallowed_logits() {
    let logits_src = vec![0.1, 0.2, 0.3, 0.4, 0.5];
    let bias = build_semantic_bias(5, 1, 2, Some(4), 0.0, MASKED);
    let mut biased = logits_src.clone();
    apply_semantic_bias(&mut biased, &bias, false, Some(4), MASKED, &calc()).unwrap();
    assert!(biased[0].is_infinite());
    assert_eq!(biased[1], 0.2);
    assert_eq!(biased[4], 0.5);
}

#[test]
fn biases_and_masks_come_to_the_same() {
    let logits = vec![0.1, 0.2, 0.3, 0.4, 0.5];
    for block in [false, true] {
        for end in [None, Some(0), Some(4), Some(9)] {
            let bias = build_semantic_bias(5, 1, 2, end, 0.0, MASKED);
            let mut biased = logits.clone();
            apply_semantic_bias(&mut biased, &bias, block, end, MASKED, &calc()).unwrap();
            let mut masked = logits.clone();
            semantic_mask_logits(&mut masked, 1, 2, end, block, MASKED);
            assert_eq!(biased, masked);
        }
    }
}

#[test]
fn draws_choose_among_the_shares() {
    let logits = vec![0.0, 0.0];
    let p = params(1.0, 1.0, 0);
    let low = sample_token_by_draw(&logits, &p, None, 0, &calc(), &judge());
    let high = sample_token_by_draw(&logits, &p, None, (1 << 53) - 1, &calc(), &judge());
    assert_eq!((low, high), (0, 1));
    let mut rng = SeededRng::new(7);
    let draw = rng.clone().next_fraction();
    assert_eq!(
        sample(&logits, &p, None, &mut rng),
        sample_token_by_draw(&logits, &p, None, draw, &calc(), &judge())
    );
}

#[test]
fn biases_of_the_wrong_length_are_refused() {
    let mut logits = vec![0.1, 0.2];
    let err = apply_semantic_bias(&mut logits, &[0.0], true, Some(0), MASKED, &calc()).unwrap_err();
    assert_eq!(
        err.message(),
        "semantic bias length mismatch: logits=2 bias=1"
    );
    assert_eq!(logits, vec![0.1, 0.2]);
}

#[test]
fn greedy_temp_zero_picks_top_logit() {
    let logits = vec![0.1, 5.0, 3.0, 2.0];
    let mut rng = SeededRng::new(1);
    let token = sample(&logits, &params(0.0, 1.0, 0), None, &mut rng);
    assert_eq!(token, 1);
}

#[test]
fn top_k_limits_candidates() {
    let logits = vec![10.0, 9.0, 8.0, 0.0];
    let mut rng = SeededRng::new(99);
    let token = sample(&logits, &params(0.0, 1.0, 2), None, &mut rng);
    assert!(token <= 1);
}

#[test]
fn always_include_id_survives_top_k_truncation() {
    let logits = vec![MASKED, MASKED, MASKED, MASKED, 5.0];
    let mut rng = SeededRng::new(1);
    let token = sample(&logits, &params(0.0, 1.0, 1), Some(4), &mut rng);
    assert_eq!(token, 4);
}

#[test]
fn seeded_sampling_is_repeatable() {
    let logits = vec![1.0, 3.0, 2.0, 0.5, 4.0];
    let p = params(0.8, 0.9, 3);
    let mut rng_a = SeededRng::new(42);
    let mut rng_b = SeededRng::new(42);
    let a = sample(&logits, &p, None, &mut rng_a);
    let b = sample(&logits, &p, None, &mut rng_b);
    assert_eq!(a, b);
}

#[test]
fn random_numbers_follow_their_seed() {
    let mut rng = SeededRng::new(0);
    assert_eq!(rng.next_fraction(), 1 >> 11);
    assert_eq!(rng.state, 1);
    assert_eq!(rng.next_fraction(), 6364136223846793006u64 >> 11);
}

#[test]
fn nothing_is_drawn_where_there_is_nothing_to_choose_from() {
    let mut rng = SeededRng::new(7);
    assert_eq!(sample(&[], &params(1.0, 1.0, 0), None, &mut rng), 0);
    assert_eq!(rng.state, 7);
}

#[test]
fn forced_candidates_are_added_behind_the_best() {
    let logits: Vec<u32> = [1.0f32, 4.0, 3.0, -1.0].iter().map(|v| v.to_bits()).collect();
    assert_eq!(candidate_ids(&logits, 2, None), vec![1, 2]);
    assert_eq!(candidate_ids(&logits, 2, Some(3)), vec![1, 2, 3]);
    assert_eq!(candidate_ids(&logits, 2, Some(9)), vec![1, 2]);
    assert_eq!(candidate_ids(&logits, 0, None), vec![1, 2, 0, 3]);
    let no_number = vec![bits(f32::INFINITY), f32::NAN.to_bits(), bits(1.0), f32::NAN.to_bits()];
    assert_eq!(candidate_ids(&no_number, 1, Some(3)).len(), 1);
    assert!(candidate_ids(&no_number, 1, Some(0)).contains(&0));
}

#[test]
fn temperature_sharpens_probabilities() {
    let warm = apply_softmax(&vec![0.0, 1.0], 1.0f32.to_bits(), &calc());
    let cool = apply_softmax(&vec![0.0, 1.0], 0.5f32.to_bits(), &calc());
    assert!((warm[0] + warm[1] - 1.0).abs() < 1e-6);
    assert!(cool[1] > warm[1]);
}

#[test]
fn barred_end_of_speech_is_never_chosen() {
    let logits = [0.0, 0.0, 9.0];
    let bias = build_semantic_bias(3, 0, 0, Some(2), 0.0, MASKED);
    let mut rng = SeededRng::new(3);
    let p = params(0.0, 1.0, 0);
    let barred =
        sample_semantic_token(&logits, &bias, 2, true, &p, &mut rng, &calc(), &judge()).unwrap();
    let free =
        sample_semantic_token(&logits, &bias, 2, false, &p, &mut rng, &calc(), &judge()).unwrap();
    assert_eq!(barred, 0);
    assert_eq!(free, 2);
}

// ---------------------------------------------------------------------
// Codes
// ---------------------------------------------------------------------

#[test]
fn compact_codes_trims_stride_when_fewer_frames() {
    // codebook-major stride: codes[cb * max_new + t]
    let mut codes = vec![10, 11, 0, 20, 21, 0];
    compact_codes(&mut codes, 2, 3, 2).expect("compact");
    assert_eq!(codes, vec![10, 11, 20, 21]);
}

#[test]
fn compacting_needs_no_room_behind_the_last_frame() {
    let mut codes = vec![10, 11, 0, 20, 21];
    compact_codes(&mut codes, 2, 3, 2).unwrap();
    assert_eq!(codes, vec![10, 11, 20, 21]);
    let mut codes: Vec<i32> = Vec::new();
    compact_codes(&mut codes, 2, 3, 0).unwrap();
    assert!(codes.is_empty());
}

fn toy_part() -> ArGraphSpec {
    ArGraphSpec {
        context_length: 8,
        embedding_length: 4,
        feed_forward_length: 4,
        block_count: 1,
        head_count: 1,
        head_count_kv: 1,
        head_dim: 4,
        q_size: 4,
        kv_size: 4,
        head_repeat: 1,
        rope_freq_base: 10_000.0f32.to_bits(),
        rms_norm_eps: 0,
        attention_qk_norm: false,
    }
}

fn toy_graph() -> DualArGraphSpec {
    DualArGraphSpec {
        slow: toy_part(),
        fast: toy_part(),
        kv_cache: KvCacheSpec {
            ggml_type: GgmlType::F16,
            head_dim: 4,
            head_count_kv: 1,
            block_count: 1,
        },
        codebook_size: 4,
        num_codebooks: 2,
        semantic_begin_id: 100,
        semantic_end_id: 103,
        scale_codebook_embeddings: true,
        tie_word_embeddings: true,
        fast_has_project_in: false,
    }
}

fn toy_tokens() -> S2TokenizerConfig {
    S2TokenizerConfig {
        im_start_id: 1,
        im_end_id: 2,
        voice_id: 3,
    }
}

#[test]
fn steps_hold_the_token_and_its_codes() {
    let g = toy_graph();
    assert_eq!(
        build_step_input(101, Some(&[1, 3]), &g).unwrap(),
        vec![101, 1, 3]
    );
    assert_eq!(build_step_input(102, None, &g).unwrap(), vec![102, 2, 0]);
    assert_eq!(build_step_input(7, Some(&[9]), &g).unwrap(), vec![7, 0, 0]);
    assert_eq!(
        build_step_input(101, Some(&[1]), &g).unwrap_err().message(),
        "codebooks_cb length 1 != num_codebooks 2"
    );
    assert_eq!(semantic_to_codebook_id(103, &g), 3);
    assert_eq!(semantic_to_codebook_id(5, &g), 0);
}

#[test]
fn runs_of_codes_keep_every_frame() {
    let p = GenerateParams {
        max_new_tokens: 3,
        ..GenerateParams::default()
    };
    let mut run = CodesRun::new(toy_graph(), &toy_tokens(), &p, 5).unwrap();
    assert_eq!(run.next_frame(101), Some(1));
    assert_eq!(run.take_frame(101, &[1, 2]).unwrap(), vec![101, 1, 2]);
    assert_eq!(run.take_frame(100, &[0, 3]).unwrap(), vec![100, 0, 3]);
    assert_eq!(run.next_frame(2), None);
    assert!(run.blocks_end(7));
    let result = run.finish(SlowArDecodeProfile::zero());
    assert_eq!(result.n_frames, 2);
    assert_eq!(result.codes, vec![1, 0, 2, 3]);
}

#[test]
fn runs_of_tokens_stop_at_the_end_of_speech() {
    let p = GenerateParams::default();
    let mut run = SemanticRun::new(toy_graph(), &toy_tokens(), &p, 5, 100);
    assert_eq!(run.next_input().unwrap().unwrap(), vec![100, 0, 0]);
    run.take_token(2);
    assert!(run.next_input().is_none());
    assert_eq!(run.finish().token_ids, vec![100, 2]);
}

#[test]
fn frames_are_filled_codebook_by_codebook() {
    let g = toy_graph();
    assert!(CodebookRun::new(4, &g).is_err());
    let mut run = CodebookRun::new(3, &g).unwrap();
    assert_eq!(run.next_prefix(), Some(&[3u32][..]));
    assert!(run.take(4).is_err());
    run.take(1).unwrap();
    assert!(run.next_prefix().is_none());
    assert_eq!(run.finish(), vec![3, 1]);
}

// ---------------------------------------------------------------------
// Prompts
// ---------------------------------------------------------------------

#[test]
fn prompt_pair_validation_requires_both_reference_parts() {
    let codes = PromptCodes {
        num_codebooks: 10,
        cols: 1,
        data: vec![0; 10],
    };
    assert!(validate_prompt_pair(None, None).is_ok());
    assert!(validate_prompt_pair(Some("ref"), Some(&codes)).is_ok());
    assert!(validate_prompt_pair(Some("ref"), None).is_err());
    assert!(validate_prompt_pair(None, Some(&codes)).is_err());
}

#[test]
fn prompt_codes_file_validates_length() {
    let file = PromptCodesFile {
        prompt_text: "ref".into(),
        num_codebooks: 2,
        cols: 3,
        codes: vec![1, 2, 3, 4, 5, 6],
    };
    let codes = file.to_prompt_codes().unwrap();
    assert_eq!(codes.cols, 3);
    assert_eq!(codes.data.len(), 6);
}

#[test]
fn prompt_codes_of_the_wrong_length_are_refused() {
    let file = PromptCodesFile {
        prompt_text: "ref".into(),
        num_codebooks: 2,
        cols: 3,
        codes: vec![1],
    };
    assert!(file
        .to_prompt_codes()
        .unwrap_err()
        .message()
        .starts_with("prompt codes length mismatch: expected 6"));
}

#[test]
fn transpose_matches_time_major_layout() {
    let tensor = PromptTensor {
        rows: 3,
        cols: 2,
        data: vec![
            10, 20, // row0
            1, 2, // row1
            3, 4, // row2
        ],
    };
    assert_eq!(
        transpose_to_time_major(&tensor).unwrap(),
        vec![10, 1, 3, 20, 2, 4]
    );
}

#[test]
fn tables_that_do_not_fit_are_refused() {
    let tensor = |rows, cols, data| PromptTensor { rows, cols, data };
    assert_eq!(
        transpose_to_time_major(&tensor(0, 2, vec![]))
            .unwrap_err()
            .message(),
        "prompt rows must be non-zero"
    );
    assert_eq!(
        transpose_to_time_major(&tensor(1, 2, vec![1]))
            .unwrap_err()
            .message(),
        "prompt data length mismatch: expected 2, got 1"
    );
    assert_eq!(
        transpose_to_time_major(&tensor(1, 1, vec![u32::MAX]))
            .unwrap_err()
            .message(),
        "prompt token id does not fit i32"
    );
}

#[test]
fn codes_of_a_voice_become_a_prompt() {
    let found = CodecReferenceAudioResult {
        input_samples: 1,
        padded_samples: 2048,
        encoder_frames: 4,
        quantizer_frames: 1,
        num_codebooks: 2,
        codes: vec![5, 6],
        final_residual_l2: vec![0.0f32],
    };
    let codes = reference_prompt_codes(&found);
    assert_eq!(codes.cols, 1);
    assert_eq!(codes.num_codebooks, 2);
    assert_eq!(codes.data, vec![5, 6]);
}

// ---------------------------------------------------------------------
// Tokens
// ---------------------------------------------------------------------

#[test]
fn bytelevel_table_matches_gpt2_known_values() {
    let table = gpt2_byte_to_unicode();
    assert_eq!(table[b'!' as usize], '!');
    assert_eq!(table[b' ' as usize], 'Ġ');
    assert_eq!(table[b'\n' as usize], 'Ċ');
    assert_eq!(table[0], 'Ā');
    assert_eq!(table[0xFF], 'ÿ');
}

#[test]
fn bytelevel_encodes_utf8_bytes() {
    assert_eq!(bytelevel_encode_utf8(" hello\n"), "ĠhelloĊ");
    assert_eq!(bytelevel_encode_utf8("é"), "Ã©");
}

#[test]
fn parses_token_id_fixture_csv() {
    assert_eq!(parse_token_ids_csv("1, 2,3,").unwrap(), vec![1, 2, 3]);
    assert!(parse_token_ids_csv("1,nope").is_err());
}

fn toy_document() -> TokenizerDocument {
    let vocab = [
        ("a", 0),
        ("b", 1),
        ("ab", 2),
        ("<|im_start|>", 10),
        ("<|im_end|>", 11),
        ("<|voice|>", 12),
    ];
    TokenizerDocument {
        added_tokens: Some(
            [("<|im_start|>", 10), ("<|im_end|>", 11), ("<|voice|>", 12)]
                .iter()
                .map(|(content, id)| AddedToken {
                    content: content.to_string(),
                    id: *id,
                    special: true,
                })
                .collect(),
        ),
        model: Some(TokenizerModel {
            vocab: vocab.iter().map(|(t, i)| (t.to_string(), *i)).collect(),
            merges: vec![MergeEntry::Pair("a".into(), "b".into())],
        }),
    }
}

#[test]
fn pairs_are_merged_by_rank() {
    let bpe = S2CppBpeTokenizer::from_document(toy_document()).unwrap();
    assert_eq!(bpe.token_to_id("ab"), Some(2));
    assert_eq!(bpe.bpe_encode_word("aba"), vec![2, 0]);
    assert_eq!(bpe.encode("ab<|im_end|>b"), vec![2, 11, 1]);
    assert_eq!(pre_tokenize("ab ab").concat(), "ab ab");
}

fn toy_tokenizer_json() -> String {
    let mut json = String::from("{\"version\":\"1.0\",\"truncation\":null,\"padding\":null,");
    json.push_str("\"added_tokens\":[],\"normalizer\":null,\"pre_tokenizer\":null,");
    json.push_str("\"post_processor\":null,\"decoder\":null,\"model\":{\"type\":\"BPE\",");
    json.push_str("\"dropout\":null,\"unk_token\":null,\"continuing_subword_prefix\":null,");
    json.push_str("\"end_of_word_suffix\":null,\"fuse_unk\":false,\"byte_fallback\":false,");
    json.push_str("\"vocab\":{\"a\":0,\"b\":1,\"ab\":2},\"merges\":[\"a b\"]}}");
    json
}

#[test]
fn tokenizer_files_are_loaded_and_used() {
    let json = toy_tokenizer_json();
    let tokenizer =
        S2Tokenizer::from_bytes("tokenizer.json", json.as_bytes(), Ok(toy_document())).unwrap();
    assert_eq!(tokenizer.config().im_end_id, 11);
    assert_eq!(tokenizer.encode("aba").unwrap().ids, vec![2, 0]);
    assert_eq!(tokenizer.encode_s2cpp("ab").ids, vec![2]);
    assert_eq!(tokenizer.encode_newline(), vec![198]);
    let graph = toy_graph();
    let prompt = build_prompt(
        &tokenizer,
        PromptBuildOptions {
            text: "ab",
            prompt_text: None,
            prompt_codes: None,
            graph: &graph,
        },
    )
    .unwrap();
    assert_eq!(prompt.rows, 3);
    assert_eq!(prompt.data.len(), 3 * prompt.cols);
    assert!(prompt.data[..prompt.cols].contains(&10));
}

#[test]
fn tokenizer_files_that_are_none_are_refused() {
    let err = S2Tokenizer::from_bytes("t.json", b"{}", Ok(toy_document()))
        .err()
        .unwrap();
    assert!(err
        .message()
        .starts_with("failed to load tokenizer t.json: "));
    let json = toy_tokenizer_json();
    let mut lacking = toy_document();
    if let Some(model) = lacking.model.as_mut() {
        model.vocab.truncate(4);
    }
    lacking.added_tokens = None;
    let err = S2Tokenizer::from_bytes("t.json", json.as_bytes(), Ok(lacking))
        .err()
        .unwrap();
    assert!(err.message().contains("<|im_end|>"));
}

fn refusal_of(json: &str) -> String {
    S2Tokenizer::from_bytes("t.json", json.as_bytes(), Ok(toy_document()))
        .err()
        .unwrap()
        .message()
}

#[test]
fn tokenizer_files_that_cannot_be_loaded_are_refused() {
    let unsupported = "failed to load tokenizer t.json: its parts are not supported";
    let json = toy_tokenizer_json();
    let prefixed = json.replace(
        "\"continuing_subword_prefix\":null",
        "\"continuing_subword_prefix\":\"##\"",
    );
    assert_eq!(refusal_of(&prefixed), unsupported);
    let twice = json.replace("{\"version\":\"1.0\"", "{\"version\":\"1.0\",\"version\":\"1.0\"");
    assert_eq!(refusal_of(&twice), unsupported);
    let words = json.replace("\"type\":\"BPE\"", "\"type\":\"WordPiece\"");
    assert_eq!(refusal_of(&words), unsupported);
    let precompiled = json.replace(
        "\"normalizer\":null",
        "\"normalizer\":{\"type\":\"Precompiled\",\"precompiled_charsmap\":\"\"}",
    );
    assert_eq!(refusal_of(&precompiled), unsupported);
    let high = json.replace("\"ab\":2", "\"ab\":2147483648");
    assert_eq!(refusal_of(&high), unsupported);
    let cut = &json[..json.len() - 1];
    assert!(refusal_of(cut).starts_with("failed to load tokenizer t.json: EOF"));
    let foreign = json.replace("\"merges\":[\"a b\"]", "\"merges\":[\"a c\"]");
    assert!(refusal_of(&foreign).contains("out of vocabulary"));
}

fn toy_tokenizer(json: &str) -> S2Tokenizer {
    S2Tokenizer::from_bytes("t.json", json.as_bytes(), Ok(toy_document())).unwrap()
}

#[test]
fn tokenizer_files_with_usual_parts_encode() {
    let json = toy_tokenizer_json()
        .replace("\"normalizer\":null", "\"normalizer\":{\"type\":\"NFC\"}")
        .replace(
            "\"pre_tokenizer\":null",
            "\"pre_tokenizer\":{\"type\":\"Sequence\",\"pretokenizers\":[\
             {\"type\":\"Split\",\"pattern\":{\"Regex\":\"a+\"},\"behavior\":\"MergedWithNext\",\
             \"invert\":false},{\"type\":\"ByteLevel\",\"add_prefix_space\":false,\
             \"trim_offsets\":false,\"use_regex\":false}]}",
        )
        .replace(
            "\"added_tokens\":[]",
            "\"added_tokens\":[{\"id\":3,\"content\":\"<x>\",\"single_word\":false,\
             \"lstrip\":false,\"rstrip\":false,\"normalized\":false,\"special\":true}]",
        );
    let tokenizer = toy_tokenizer(&json);
    let found = tokenizer.encode("ab<x>ab").unwrap();
    assert_eq!(found.ids, vec![2, 3, 2]);
    assert_eq!(found.tokens, vec!["ab", "<x>", "ab"]);
}

fn json_text(text: &str) -> String {
    format!("\"{}\"", text.replace('\\', "\\\\").replace('"', "\\\""))
}

fn split_by(pattern: &str) -> String {
    toy_tokenizer_json().replace(
        "\"pre_tokenizer\":null",
        &format!(
            "\"pre_tokenizer\":{{\"type\":\"Split\",\"pattern\":{{\"Regex\":{}}},\
             \"behavior\":\"Isolated\",\"invert\":false}}",
            json_text(pattern)
        ),
    )
}

const WORDS: [&str; 3] = [
    "(?i:'s|'t|'re|'ve|'m|'ll|'d)|[^\\r\\n\\p{L}\\p{N}]?\\p{L}+|\\p{N}| ?[^\\s\\p{L}\\p{N}]+[\\r\\n]*\
     |\\s*[\\r\\n]+|\\s+(?!\\S)|\\s+",
    "(?i:'s|'t|'re|'ve|'m|'ll|'d)|[^\\r\\n\\p{L}\\p{N}]?\\p{L}+|\\p{N}{1,3}\
     | ?[^\\s\\p{L}\\p{N}]+[\\r\\n]*|\\s*[\\r\\n]+|\\s+(?!\\S)|\\s+",
    "'s|'t|'re|'ve|'m|'ll|'d| ?\\p{L}+| ?\\p{N}+| ?[^\\s\\p{L}\\p{N}]+|\\s+(?!\\S)|\\s+",
];

#[test]
fn patterns_with_large_counts_are_refused() {
    let unsupported = "failed to load tokenizer t.json: its parts are not supported";
    for pattern in [
        "a{18446744073709551615}b",
        "(?:a{4294967296}){4294967296}",
        "((?=a)){18446744073709551614}",
        "(a)\\k<9223372036854775807>",
    ] {
        assert_eq!(refusal_of(&split_by(pattern)), unsupported, "{pattern}");
        let replacing = toy_tokenizer_json().replace(
            "\"decoder\":null",
            &format!(
                "\"decoder\":{{\"type\":\"Sequence\",\"decoders\":[{{\"type\":\"Replace\",\
                 \"pattern\":{{\"Regex\":{}}},\"content\":\"\"}}]}}",
                json_text(pattern)
            ),
        );
        assert_eq!(refusal_of(&replacing), unsupported, "{pattern}");
        let normalizing = toy_tokenizer_json().replace(
            "\"normalizer\":null",
            &format!(
                "\"normalizer\":{{\"type\":\"Replace\",\"pattern\":{{\"Regex\":{}}},\
                 \"content\":\"\"}}",
                json_text(pattern)
            ),
        );
        assert_eq!(refusal_of(&normalizing), unsupported, "{pattern}");
    }
}

#[test]
fn patterns_that_cannot_be_run_are_not() {
    let unsupported = "tokenizer encode failed: the parts of its file are not supported";
    for pattern in ["((?=a)){1048576}", "(?:(\\1?a)b)*", "(?>a|b)", "(?<x>a)", "(a)(?(1)b|c)"] {
        let tokenizer = toy_tokenizer(&split_by(pattern));
        assert_eq!(
            tokenizer.encode("aba").unwrap_err().message(),
            unsupported,
            "{pattern}"
        );
        assert!(!check_pattern(pattern));
    }
    for pattern in WORDS {
        assert!(check_pattern(pattern));
        let tokenizer = toy_tokenizer(&split_by(pattern));
        assert_eq!(tokenizer.encode("aba").unwrap().ids, vec![2, 0]);
    }
    for pattern in ["", "((?=a)){1000}", "(?<=a)b", "\\(", "(?i)a", "a{0}", "["] {
        assert!(check_pattern(pattern), "{pattern}");
    }
    let tokenizer = toy_tokenizer(&split_by("b"));
    assert_eq!(tokenizer.encode("abab").unwrap().ids, vec![0, 1, 0, 1]);
}

#[test]
fn plain_patterns_run_on_any_text() {
    let patterns = [
        "\\bab\\b", "\\B", "\\<a|b\\>", "a++b", "(?:a|b)*+", "(a)(b)?", "(?<=a|bb)c", "(?<!a)b",
        "a*?(?=b)", "(?:a?){0,3}(?!b)", "((?=a)|(?=b))*", "(?:(?:a+)+)+\\b", "^|$", "(?i:\u{e9})+",
        "[^\\p{L}]?", "(?i)A", "a{2,}(?!a)", "(a|(b))+?(?=c|$)", "\\s*", ".", "(?!.)",
    ];
    let texts = [
        "", "a", "ab", "abab", "aabbcc", " ab ", "\u{e9}\u{c9}", "a\u{1f600}b", "\n\na\r\n", "aaaa aaaa",
        "b c", "\u{301}a",
    ];
    for pattern in patterns {
        assert!(check_pattern(pattern), "{pattern}");
        let tokenizer = toy_tokenizer(&split_by(pattern));
        for text in texts {
            let found = tokenizer.encode(text).unwrap();
            assert_eq!(found.ids.len(), found.tokens.len());
            assert_eq!(found.ids, tokenizer.encode(text).unwrap().ids);
        }
    }
}

#[test]
fn texts_are_split_by_what_characters_are() {
    for (kind, more) in [
        ("Whitespace", ""),
        ("WhitespaceSplit", ""),
        ("Punctuation", ",\"behavior\":\"Isolated\""),
        ("Digits", ",\"individual_digits\":true"),
        ("BertPreTokenizer", ""),
    ] {
        let json = toy_tokenizer_json().replace(
            "\"pre_tokenizer\":null",
            &format!("\"pre_tokenizer\":{{\"type\":\"{kind}\"{more}}}"),
        );
        assert_eq!(toy_tokenizer(&json).encode("aba").unwrap().ids, vec![2, 0]);
    }
    let json = toy_tokenizer_json().replace(
        "\"pre_tokenizer\":null",
        "\"pre_tokenizer\":{\"type\":\"WhitespaceSplit\"}",
    );
    assert_eq!(toy_tokenizer(&json).encode("a b").unwrap().tokens, vec!["a", "b"]);
}

#[test]
fn templates_take_one_text() {
    let unsupported = "tokenizer encode failed: the parts of its file are not supported";
    let templated = |pieces: &str| {
        toy_tokenizer_json().replace(
            "\"post_processor\":null",
            &format!(
                "\"post_processor\":{{\"type\":\"TemplateProcessing\",\"single\":[{pieces}],\
                 \"pair\":[],\"special_tokens\":{{\"b\":{{\"id\":\"b\",\"ids\":[1],\
                 \"tokens\":[\"b\"]}}}}}}"
            ),
        )
    };
    let special = "{\"SpecialToken\":{\"id\":\"b\",\"type_id\":0}}";
    let text = "{\"Sequence\":{\"id\":\"A\",\"type_id\":0}}";
    let second = "{\"Sequence\":{\"id\":\"B\",\"type_id\":1}}";
    let tokenizer = toy_tokenizer(&templated(&format!("{special},{text}")));
    assert_eq!(tokenizer.encode("aba").unwrap().ids, vec![2, 0]);
    for pieces in [format!("{text},{text}"), second.to_string()] {
        let tokenizer = toy_tokenizer(&templated(&pieces));
        assert_eq!(tokenizer.encode("aba").unwrap_err().message(), unsupported);
    }
}

#[test]
fn padding_reaches_to_the_longest() {
    let unsupported = "tokenizer encode failed: the parts of its file are not supported";
    let padded = |strategy: &str| {
        toy_tokenizer_json().replace(
            "\"padding\":null",
            &format!(
                "\"padding\":{{\"strategy\":{strategy},\"direction\":\"Right\",\
                 \"pad_to_multiple_of\":null,\"pad_id\":0,\"pad_type_id\":0,\
                 \"pad_token\":\"a\"}}"
            ),
        )
    };
    let tokenizer = toy_tokenizer(&padded("\"BatchLongest\""));
    assert_eq!(tokenizer.encode("aba").unwrap().ids, vec![2, 0]);
    let tokenizer = toy_tokenizer(&padded("{\"Fixed\":18446744073709551615}"));
    assert_eq!(tokenizer.encode("aba").unwrap_err().message(), unsupported);
}

#[test]
fn added_tokens_take_blanks_on_one_side() {
    let unsupported = "tokenizer encode failed: the parts of its file are not supported";
    let stripping = |left: bool, right: bool| {
        toy_tokenizer_json().replace(
            "\"added_tokens\":[]",
            &format!(
                "\"added_tokens\":[{{\"id\":3,\"content\":\"<x>\",\"single_word\":false,\
                 \"lstrip\":{left},\"rstrip\":{right},\"normalized\":false,\"special\":true}}]"
            ),
        )
    };
    let tokenizer = toy_tokenizer(&stripping(true, false));
    let found = tokenizer.encode("ab  <x>ab").unwrap();
    assert_eq!(found.ids, vec![2, 3, 2]);
    assert_eq!(found.tokens, vec!["ab", "  <x>", "ab"]);
    let tokenizer = toy_tokenizer(&stripping(false, true));
    assert_eq!(tokenizer.encode("<x>  ab").unwrap().ids, vec![3, 2]);
    let tokenizer = toy_tokenizer(&stripping(true, true));
    assert_eq!(tokenizer.encode("ab").unwrap_err().message(), unsupported);
}

#[test]
fn other_normalizers_are_loaded_and_not_run() {
    let json = toy_tokenizer_json().replace(
        "\"normalizer\":null",
        "\"normalizer\":{\"type\":\"BertNormalizer\",\"clean_text\":true,\
         \"handle_chinese_chars\":true,\"strip_accents\":null,\"lowercase\":true}",
    );
    let tokenizer = toy_tokenizer(&json);
    assert_eq!(tokenizer.encode_s2cpp("ab").ids, vec![2]);
    assert_eq!(
        tokenizer.encode("ab").unwrap_err().message(),
        "tokenizer encode failed: the parts of its file are not supported"
    );
}

#[test]
fn texts_are_cut_as_the_file_says() {
    let truncated = |max: usize, stride: usize| {
        toy_tokenizer_json().replace(
            "\"truncation\":null",
            &format!(
                "\"truncation\":{{\"direction\":\"Right\",\"max_length\":{max},\
                 \"strategy\":\"LongestFirst\",\"stride\":{stride}}}"
            ),
        )
    };
    let tokenizer = toy_tokenizer(&truncated(1, 0));
    assert_eq!(tokenizer.encode("aba").unwrap().ids, vec![2]);
    let unsupported = "tokenizer encode failed: the parts of its file are not supported";
    let overlapping = toy_tokenizer(&truncated(1, 1));
    assert_eq!(overlapping.encode("aba").unwrap_err().message(), unsupported);
    let moving = toy_tokenizer_json().replace(
        "\"pre_tokenizer\":null",
        "\"pre_tokenizer\":{\"type\":\"Split\",\"pattern\":{\"Regex\":\"(?=a\\\\K)\"},\
         \"behavior\":\"Isolated\",\"invert\":false}",
    );
    let moving = toy_tokenizer(&moving);
    assert_eq!(moving.encode("aba").unwrap_err().message(), unsupported);
}

#[test]
fn texts_are_encoded_part_by_part_before_blanks() {
    let bpe = S2CppBpeTokenizer::from_document(toy_document()).unwrap();
    for (a, b) in [("ab", " ab"), ("", "\nb"), ("a b", "\ta"), ("aa", " ")] {
        let mut parts = bpe.encode(a);
        parts.extend(bpe.encode(b));
        assert_eq!(bpe.encode(&format!("{a}{b}")), parts);
    }
}

// ---------------------------------------------------------------------
// Names of tensors
// ---------------------------------------------------------------------

#[test]
fn maps_expected_layer_weight_names() {
    let slow = SlowArLayerWeights::names(7);
    assert_eq!(slow.attention_wqkv, "layers.7.attention.wqkv.weight");
    assert_eq!(slow.feed_forward_w2, "layers.7.feed_forward.w2.weight");

    let fast = FastArLayerWeights::names(3);
    assert_eq!(fast.attention_wqkv, "fast_layers.3.attention.wqkv.weight");
    assert_eq!(fast.feed_forward_w3, "fast_layers.3.feed_forward.w3.weight");
}

#[test]
fn required_specs_cover_slow_and_fast_layers() {
    let required = {
        let mut specs = root_specs();
        for layer in 0..SLOW_AR_LAYERS {
            specs.extend(SlowArLayerWeights::spec(layer));
        }
        for layer in 0..FAST_AR_LAYERS {
            specs.extend(FastArLayerWeights::spec(layer));
        }
        specs
    };
    assert_eq!(required.len(), 6 + SLOW_AR_LAYERS * 9 + FAST_AR_LAYERS * 7);
    assert!(required
        .iter()
        .any(|spec| spec.name == "layers.35.attention.wqkv.weight"));
    assert!(required
        .iter()
        .any(|spec| spec.name == "fast_layers.3.attention.wqkv.weight"));
}

// ---------------------------------------------------------------------
// Engines
// ---------------------------------------------------------------------

#[test]
fn parses_backend_names() {
    assert_eq!(
        EngineBackend::parse("rust-pure").unwrap(),
        EngineBackend::RustPure
    );
    assert_eq!(EngineBackend::parse("ffi").unwrap(), EngineBackend::Ffi);
    assert_eq!(
        EngineBackend::parse("ffi-cuda").unwrap(),
        EngineBackend::FfiCuda
    );
    assert_eq!(
        EngineBackend::parse("cuda").unwrap(),
        EngineBackend::FfiCuda
    );
    assert!(EngineBackend::parse("subprocess").is_err());
    assert!(EngineBackend::parse("unknown").is_err());
}

#[test]
fn backends_are_parsed_back_from_their_names() {
    for b in [
        EngineBackend::RustPure,
        EngineBackend::Ffi,
        EngineBackend::FfiCuda,
    ] {
        assert_eq!(EngineBackend::parse(b.as_str()).unwrap(), b);
    }
    assert_eq!(
        EngineBackend::parse("Wrong").unwrap_err().message(),
        "unknown backend: wrong (expected rust-pure, ffi, or ffi-cuda)"
    );
    assert!(EngineBackend::FfiCuda.uses_cuda() && EngineBackend::FfiCuda.is_ffi());
}

#[test]
fn engines_name_what_they_lack() {
    let err = EngineConfig::new("t".into(), "c".into(), true, false, "/r").unwrap_err();
    assert_eq!(err.message(), "codec GGUF missing: c");
    let mut config = EngineConfig::new("t".into(), "c".into(), true, true, "/r").unwrap();
    assert_eq!(config.tokenizer_path, "/r/models/tokenizer.json");
    assert!(config
        .check_load(false)
        .unwrap_err()
        .message()
        .starts_with("tokenizer not found: /r/models/tokenizer.json"));
    assert!(config.check_load(true).is_ok());
    config.backend = EngineBackend::Ffi;
    assert!(matches!(
        config.check_load(true),
        Err(InferError::NativeNotLinked)
    ));
}

fn key(path: &str, len: u64, text: &str) -> ReferenceCacheKey {
    ReferenceCacheKey {
        wav_path: path.into(),
        wav_len: len,
        wav_modified_nanos: Some(1),
        text: text.into(),
    }
}

#[test]
fn reference_cache_key_tracks_text_and_file_metadata() {
    let key_a = key("a.wav", 3, "same text");
    let key_b = key("a.wav", 3, "different text");
    assert!(!key_a.same_as(&key_b));
    let key_c = key("a.wav", 6, "same text");
    assert!(!key_a.same_as(&key_c));
    assert!(key("v/a.wav", 3, "t").same_as(&key("v//./a.wav", 3, "t")));
    assert!(!key("v/a.wav", 3, "t").same_as(&key("/v/a.wav", 3, "t")));
}

#[test]
fn the_last_reference_is_kept() {
    let reference = |n| CachedReference {
        text: "t".into(),
        prompt_codes: PromptCodes {
            num_codebooks: 1,
            cols: n,
            data: vec![0; n],
        },
    };
    let mut cache = ReferenceCache::new();
    assert!(cache.find(&key("a", 1, "t")).is_none());
    cache.keep(key("a", 1, "t"), reference(1));
    assert_eq!(cache.find(&key("a", 1, "t")).unwrap().prompt_codes.cols, 1);
    cache.keep(key("b", 1, "t"), reference(2));
    assert!(cache.find(&key("a", 1, "t")).is_none());
    assert_eq!(cache.find(&key("b", 1, "t")).unwrap().prompt_codes.cols, 2);
}

#[test]
fn references_come_with_both_parts() {
    let request = |wav: Option<&str>, text: Option<&str>| SynthesisRequest {
        text: "hi".into(),
        reference_text: text.map(|t| t.to_string()),
        reference_wav: wav.map(|t| t.to_string()),
    };
    assert_eq!(
        request(Some("w"), Some("t")).reference().unwrap(),
        ReferenceChoice::Named
    );
    assert_eq!(
        request(None, None).reference().unwrap(),
        ReferenceChoice::Default
    );
    assert!(request(Some("w"), None).reference().is_err());
    assert!(has_workdir_reference(true, true, "w").unwrap());
    assert_eq!(
        has_workdir_reference(true, false, "w").unwrap_err().message(),
        "reference.wav and reference.txt must both exist in w"
    );
}

#[test]
fn the_server_answers_with_sound_or_a_reason() {
    assert!(check_format("WAV").is_none());
    match check_format("mp3") {
        Some(TtsReply::Problem(status, text)) => {
            assert_eq!(status, 400);
            assert_eq!(text, "only wav format supported");
        }
        _ => panic!("a format that is not known was let through"),
    }
    assert!(matches!(reply_to(Ok(vec![1])), TtsReply::Sound(b) if b == vec![1]));
    match reply_to(Err(InferError::Io("gone".into()))) {
        TtsReply::Problem(status, text) => {
            assert_eq!(status, 500);
            assert_eq!(text, "IO: gone");
        }
        TtsReply::Sound(_) => panic!("an error became sound"),
    }
}

#[test]
fn pipelines_name_the_first_file_they_lack() {
    let config = RustPipelineConfig::new("t".into(), "c".into(), "/r")
        .with_tokenizer("tok".into())
        .with_max_seq_len(7);
    assert_eq!(config.max_seq_len, Some(7));
    assert!(config.check_files(true, true, true).is_ok());
    assert_eq!(
        config.check_files(true, false, false).unwrap_err().message(),
        "codec GGUF not found: c"
    );
    assert_eq!(
        require_file("tokenizer", false, "x").unwrap_err().message(),
        "tokenizer not found: x"
    );
    let options = RustSynthesisOptions::new("hi".into()).with_seed(4);
    assert_eq!(options.seed, 4);
    assert_eq!(options.params.max_new_tokens, 512);
}
