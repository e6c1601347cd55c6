use std::sync::atomic::{AtomicUsize, Ordering};

use fish_s2::attention::{
    apply_rope_normal, gqa_decode_attention, softmax, AttentionScale, GqaAttentionShape, SlowArKvCache,
};
use fish_s2::backend::CpuMatmulBackend;
use fish_s2::error::InferError;
use fish_s2::gguf::GgmlType;
use fish_s2::graph::{KvCacheSpec, HEAD_DIM, KV_HEADS, SLOW_AR_LAYERS};
use fish_s2::half::{f16_bits_to_f32, f32_to_f16_bits, round_f32_to_f16};
use fish_s2::matmul::{linear_with_backend, MatmulBackend};
use fish_s2::numeric::{Calc, Op};
use fish_s2::slow_ar::{SlowArDecodeProfile, SlowArLayerShape, SlowArProfileOp};
use fish_s2::slow_layer::{swiglu_split, SlowArLayerSkeleton};
use fish_s2::tensor::{
    embedding_lookup_rows, linear, matvec_f16_streaming, rms_norm, F16TensorBytes, F16TensorView,
};

fn op(o: Op, a: f32, b: f32, c: f32) -> f32 {
    match o {
        Op::MulAdd => a + b * c,
        Op::Plus => a + b,
        Op::Minus => a - b,
        Op::Times => a * b,
        Op::Over => a / b,
        Op::Larger => a.max(b),
        Op::Raise => (a - b).exp(),
        Op::Weigh => a * b * c,
        Op::Gate => a * (1.0 / (1.0 + (-a).exp())) * b,
        Op::Snake => {
            let s = if b.abs() < 1e-8 { 1e-8 } else { b };
            let sin = (s * a).sin();
            a + sin * sin / s
        }
        Op::Gelu => 0.5 * a * (1.0 + (a * std::f32::consts::FRAC_1_SQRT_2).tanh()),
        Op::Tanh => a.tanh(),
        Op::Root => a.sqrt(),
        Op::Length => a.max(1e-12).sqrt(),
        Op::OverCount(n) => a / n as f32,
        Op::GateOver => a / (1.0 + (-a).exp()) * b,
        Op::NormScale(n, eps) => (a / n as f32 + f32::from_bits(eps)).sqrt().recip(),
        Op::ScaleBy(bits) => a * f32::from_bits(bits),
        Op::HeadScale(n) => a * (n as f32).sqrt().recip(),
        Op::RootOver(n) => 1.0 / (n as f32).sqrt(),
        Op::Cos(position, place, head_dim, base) => angle(position, place, head_dim, base).cos(),
        Op::Sin(position, place, head_dim, base) => angle(position, place, head_dim, base).sin(),
        Op::Half(bits) => f32::from_bits(f16_bits_to_f32(bits)),
        Op::Single(bits) => f32::from_bits(bits),
        Op::Sample(value, full) => value as f32 / full as f32,
        Op::Temper(bits) => {
            let t = f32::from_bits(bits);
            if t > 0.0 {
                ((a - b) / t).exp()
            } else if (a - b).abs() < 1e-6 {
                1.0
            } else {
                0.0
            }
        }
        Op::Share => {
            if b > 0.0 {
                a / b
            } else {
                a
            }
        }
        Op::Draw(fraction) => {
            let unit = fraction as f64 / (1u64 << 53) as f64;
            (unit as f32).clamp(0.0, 1.0 - 1e-7)
        }
    }
}

fn angle(position: usize, place: usize, head_dim: usize, base: u32) -> f32 {
    position as f32 / f32::from_bits(base).powf(place as f32 / head_dim as f32)
}

fn calc() -> Calc<f32, fn(Op, f32, f32, f32) -> f32> {
    Calc { zero: 0.0, op }
}

fn assert_close(actual: &[f32], expected: &[f32]) {
    assert_eq!(actual.len(), expected.len());
    for (actual, expected) in actual.iter().zip(expected) {
        assert!(
            (actual - expected).abs() < 1e-5,
            "expected {expected}, got {actual}"
        );
    }
}

fn all_finite(values: &[f32]) -> bool {
    values.iter().all(|value| value.is_finite())
}

const BASE: u32 = 0x461c_4000; // 10000

// ---------------------------------------------------------------------
// Attention
// ---------------------------------------------------------------------

#[test]
fn rope_normal_rotates_adjacent_pairs() {
    let mut values = vec![1.0, 0.0, 0.0, 1.0];
    apply_rope_normal(&mut values, 4, 1, 10_000.0f32.to_bits(), "10000", &calc()).unwrap();
    let (sin_1, cos_1) = 1.0f32.sin_cos();
    let (sin_001, cos_001) = 0.01f32.sin_cos();
    assert_close(&values, &[cos_1, sin_1, -sin_001, cos_001]);
}

#[test]
fn rope_refuses_heads_that_do_not_fit() {
    let mut values = vec![1.0, 0.0, 0.0];
    assert!(apply_rope_normal(&mut values, 2, 1, BASE, "10000", &calc()).is_err());
    assert_eq!(values, vec![1.0, 0.0, 0.0]);
}

#[test]
fn kv_cache_uses_s2_layout_for_token_writes() {
    let spec = KvCacheSpec {
        ggml_type: GgmlType::F16,
        head_dim: 2,
        head_count_kv: 2,
        block_count: 2,
    };
    let mut cache = SlowArKvCache::new(spec, 3, 0.0f32).unwrap();
    assert_eq!(cache.dimensions(), [2, 2, 3, 2]);
    cache
        .write_token(1, 2, &[1.0, 2.0, 3.0, 4.0], &[5.0, 6.0, 7.0, 8.0])
        .unwrap();
    assert_eq!(cache.key_token(1, 2).unwrap(), &[1.0, 2.0, 3.0, 4.0]);
    assert_eq!(cache.value_token(1, 2).unwrap(), &[5.0, 6.0, 7.0, 8.0]);
}

#[test]
fn tokens_in_the_cache_do_not_disturb_each_other() {
    let spec = KvCacheSpec {
        ggml_type: GgmlType::F16,
        head_dim: 1,
        head_count_kv: 1,
        block_count: 2,
    };
    let mut cache = SlowArKvCache::new(spec, 2, 0.0f32).unwrap();
    cache.write_token(0, 1, &[1.0], &[2.0]).unwrap();
    cache.write_token(1, 1, &[3.0], &[4.0]).unwrap();
    cache.write_token(0, 0, &[5.0], &[6.0]).unwrap();
    assert_eq!(cache.key_token(0, 1).unwrap(), &[1.0]);
    assert_eq!(cache.value_token(1, 1).unwrap(), &[4.0]);
    assert!(cache.write_token(2, 0, &[1.0], &[1.0]).is_err());
    assert!(cache.write_token(0, 2, &[1.0], &[1.0]).is_err());
    assert!(cache.write_token(0, 0, &[1.0, 2.0], &[1.0]).is_err());
}

#[test]
fn gqa_decode_attention_repeats_kv_heads() {
    let query = [
        1.0, 0.0, // q head 0 -> kv head 0
        0.0, 1.0, // q head 1 -> kv head 0
        1.0, 0.0, // q head 2 -> kv head 1
        0.0, 1.0, // q head 3 -> kv head 1
    ];
    let keys = [
        1.0, 0.0, 0.0, 1.0, // token 0, kv heads 0..1
        0.0, 1.0, 1.0, 0.0, // token 1, kv heads 0..1
    ];
    let values = [
        10.0, 0.0, 0.0, 10.0, // token 0
        20.0, 0.0, 0.0, 20.0, // token 1
    ];
    let output = gqa_decode_attention(
        &query,
        &keys,
        &values,
        GqaAttentionShape {
            head_count: 4,
            head_count_kv: 2,
            head_dim: 2,
            token_count: 2,
            attn_scale: AttentionScale::Number(1.0f32.to_bits()),
        },
        &calc(),
    )
    .unwrap();
    let p_hi = 1.0f32.exp() / (1.0f32.exp() + 1.0);
    let p_lo = 1.0 - p_hi;
    assert_close(
        &output,
        &[
            10.0 * p_hi + 20.0 * p_lo,
            0.0,
            10.0 * p_lo + 20.0 * p_hi,
            0.0,
            0.0,
            10.0 * p_lo + 20.0 * p_hi,
            0.0,
            10.0 * p_hi + 20.0 * p_lo,
        ],
    );
}

#[test]
fn decode_attention_reads_written_kv_cache() {
    let spec = KvCacheSpec {
        ggml_type: GgmlType::F16,
        head_dim: 2,
        head_count_kv: 1,
        block_count: 1,
    };
    let mut cache = SlowArKvCache::new(spec, 2, 0.0f32).unwrap();
    cache.write_token(0, 0, &[1.0, 0.0], &[2.0, 0.0]).unwrap();
    cache.write_token(0, 1, &[0.0, 1.0], &[4.0, 0.0]).unwrap();
    let output = cache
        .decode_attention(
            0,
            2,
            &[1.0, 0.0, 0.0, 1.0],
            2,
            AttentionScale::Number(1.0f32.to_bits()),
            &calc(),
        )
        .unwrap();
    let p_hi = 1.0f32.exp() / (1.0f32.exp() + 1.0);
    let p_lo = 1.0 - p_hi;
    assert_close(
        &output,
        &[2.0 * p_hi + 4.0 * p_lo, 0.0, 2.0 * p_lo + 4.0 * p_hi, 0.0],
    );
}

#[test]
fn shares_add_up_to_one() {
    let shares = softmax(&vec![0.0, 1.0f32.exp().ln()], &calc());
    let p = 1.0f32.exp() / (1.0f32.exp() + 1.0);
    assert_close(&shares, &[1.0 - p, p]);
}

// ---------------------------------------------------------------------
// Products and norms
// ---------------------------------------------------------------------

#[test]
fn cpu_backend_linear_matches_output_input_weight_layout() {
    let backend = CpuMatmulBackend::new();
    let output = backend
        .linear(&[2.0, -1.0], &[1.0, 2.0, 3.0, 4.0, 5.0, 6.0], 2, 3, &calc())
        .unwrap();
    assert_eq!(backend.name(), "cpu");
    assert_eq!(output, &[0.0, 2.0, 4.0]);
}

#[test]
fn cpu_backend_rejects_bad_weight_shape() {
    let err = CpuMatmulBackend::new()
        .linear(&[1.0, 2.0], &[1.0, 2.0, 3.0], 2, 2, &calc())
        .unwrap_err();
    assert!(err.message().contains("linear weight length mismatch"));
}

#[test]
fn rms_norm_matches_manual_smoke() {
    let output = rms_norm(
        &[1.0, 2.0, 3.0, 4.0],
        &[1.0, 0.5, 2.0, -1.0],
        1e-6f32.to_bits(),
        &calc(),
    )
    .unwrap();
    let scale = (7.5f32 + 1e-6).sqrt().recip();
    assert_close(&output, &[scale, scale, 6.0 * scale, -4.0 * scale]);
}

#[test]
fn rms_norm_refuses_what_does_not_fit() {
    assert_eq!(
        rms_norm(&[], &[], 0, &calc()).unwrap_err().message(),
        "rms_norm input is empty"
    );
    assert_eq!(
        rms_norm(&[1.0], &[1.0, 2.0], 0, &calc())
            .unwrap_err()
            .message(),
        "rms_norm length mismatch: input=1, weight=2"
    );
}

#[test]
fn linear_matches_ggml_output_input_weight_layout() {
    let output = linear(&[2.0, -1.0], &[1.0, 2.0, 3.0, 4.0, 5.0, 6.0], 2, 3, &calc()).unwrap();
    assert_close(&output, &[0.0, 2.0, 4.0]);
}

fn f16_bytes(values: &[u16]) -> Vec<u8> {
    values.iter().flat_map(|v| v.to_le_bytes()).collect()
}

fn half_of(value: f32) -> u16 {
    f32_to_f16_bits(value.to_bits())
}

#[test]
fn matvec_f16_streaming_matches_expanded_linear() {
    let weight_f16 = f16_bytes(&[
        half_of(1.0),
        half_of(2.0),
        half_of(3.0),
        half_of(4.0),
        half_of(5.0),
        half_of(6.0),
    ]);
    let output = matvec_f16_streaming(&[2.0, -1.0], &weight_f16, 2, 3, &calc()).unwrap();
    assert_close(&output, &[0.0, 2.0, 4.0]);
}

#[test]
fn lookups_stay_inside_their_table() {
    let rows = embedding_lookup_rows(&[1.0, 2.0, 3.0, 4.0], 2, 2, &[1, 0]).unwrap();
    assert_eq!(rows, vec![vec![3.0, 4.0], vec![1.0, 2.0]]);
    assert_eq!(
        embedding_lookup_rows(&[1.0, 2.0], 2, 1, &[1])
            .unwrap_err()
            .message(),
        "embedding index 1 out of range for vocab_dim 1"
    );
}

#[test]
fn decodes_f16_le_bytes_to_f32_values() {
    let bytes = f16_bytes(&[0x3c00, 0xc000, 0x3800, 0x4400]);
    let tensor = F16TensorView::from_f16_le_bytes("toy".to_string(), vec![2, 2], &bytes).unwrap();
    assert_eq!(tensor.name(), "toy");
    assert_eq!(tensor.dimensions(), &[2, 2]);
    let values = tensor
        .values()
        .iter()
        .map(|bits| f32::from_bits(*bits))
        .collect::<Vec<_>>();
    assert_eq!(values, &[1.0, -2.0, 0.5, 4.0]);
}

#[test]
fn stores_f16_tensor_bytes_without_expanding_values() {
    let bytes = f16_bytes(&[0x3c00, 0xc000, 0x3800, 0x4400]);
    let tensor =
        F16TensorBytes::from_f16_le_bytes("toy".to_string(), vec![2, 2], bytes.clone()).unwrap();
    assert_eq!(tensor.name(), "toy");
    assert_eq!(tensor.dimensions(), &[2, 2]);
    assert_eq!(tensor.bytes(), bytes.as_slice());
}

#[test]
fn tensors_of_the_wrong_size_are_refused() {
    assert!(F16TensorView::from_f16_le_bytes("toy".to_string(), vec![2, 2], &[0, 0]).is_err());
    assert!(F16TensorBytes::from_f16_le_bytes("toy".to_string(), vec![3], vec![0; 5]).is_err());
}

#[test]
fn rounds_f32_to_f16_values() {
    let round = |v: f32| f32::from_bits(round_f32_to_f16(v.to_bits()));
    assert_eq!(round(1.0), 1.0);
    assert_eq!(round(-2.0), -2.0);
    assert_eq!(round(0.5), 0.5);
    assert_eq!(half_of(f32::INFINITY), 0x7c00);
    assert_eq!(half_of(f32::NEG_INFINITY), 0xfc00);
    assert_eq!(half_of(f32::NAN) & 0x7c00, 0x7c00);
}

#[test]
fn halves_survive_being_widened() {
    for bits in [0u16, 1, 0x03ff, 0x0400, 0x3c01, 0x7bff, 0x8001, 0xfbff, 0x7c00] {
        assert_eq!(f32_to_f16_bits(f16_bits_to_f32(bits)), bits);
    }
    assert_eq!(f32::from_bits(f16_bits_to_f32(1)), 2.0f32.powi(-24));
}

#[test]
fn kv_cache_dimensions_and_bytes_match_s2_layout() {
    let spec = KvCacheSpec {
        ggml_type: GgmlType::F16,
        head_dim: HEAD_DIM,
        head_count_kv: KV_HEADS,
        block_count: SLOW_AR_LAYERS as u32,
    };
    assert_eq!(
        spec.dimensions(2048),
        [HEAD_DIM, KV_HEADS, 2048, SLOW_AR_LAYERS as u32]
    );
    let one_cache_bytes =
        u64::from(HEAD_DIM) * u64::from(KV_HEADS) * 2048 * SLOW_AR_LAYERS as u64 * 2;
    assert_eq!(spec.bytes_per_cache(2048), one_cache_bytes);
    assert_eq!(spec.bytes_for_k_and_v(2048), one_cache_bytes * 2);
}

// ---------------------------------------------------------------------
// Layers of the slow transformer
// ---------------------------------------------------------------------

struct ToyLayerWeights {
    attention_norm: Vec<f32>,
    q_norm: Vec<f32>,
    k_norm: Vec<f32>,
    wqkv: Vec<f32>,
    output: Vec<f32>,
    ffn_norm: Vec<f32>,
    feed_forward_w1: Vec<f32>,
    feed_forward_w2: Vec<f32>,
    feed_forward_w3: Vec<f32>,
}

impl ToyLayerWeights {
    fn skeleton(&self, shape: SlowArLayerShape) -> SlowArLayerSkeleton<'_, f32> {
        SlowArLayerSkeleton {
            shape,
            attention_norm_weight: &self.attention_norm,
            q_norm_weight: &self.q_norm,
            k_norm_weight: &self.k_norm,
            wqkv_weight: &self.wqkv,
            output_weight: &self.output,
            ffn_norm_weight: &self.ffn_norm,
            feed_forward_w1_weight: &self.feed_forward_w1,
            feed_forward_w2_weight: &self.feed_forward_w2,
            feed_forward_w3_weight: &self.feed_forward_w3,
        }
    }
}

fn toy_shape() -> SlowArLayerShape {
    SlowArLayerShape {
        hidden_size: 4,
        feed_forward_size: 2,
        head_count: 2,
        head_count_kv: 1,
        head_dim: 2,
        rope_base: 10_000.0f32.to_bits(),
        rms_norm_eps: 0.0f32.to_bits(),
    }
}

fn output_major_weight(input_dim: usize, output_dim: usize, rows: &[Vec<f32>]) -> Vec<f32> {
    assert_eq!(rows.len(), output_dim);
    let mut values = Vec::with_capacity(input_dim * output_dim);
    for row in rows {
        assert_eq!(row.len(), input_dim);
        values.extend_from_slice(row);
    }
    values
}

fn toy_attention_weights(shape: SlowArLayerShape) -> ToyLayerWeights {
    ToyLayerWeights {
        attention_norm: vec![0.5, 1.0, 1.0, 1.0],
        q_norm: vec![std::f32::consts::FRAC_1_SQRT_2; 2],
        k_norm: vec![std::f32::consts::FRAC_1_SQRT_2; 2],
        wqkv: output_major_weight(
            shape.hidden_size,
            shape.wqkv_out().unwrap(),
            &[
                vec![1.0, 0.0, 0.0, 0.0],
                vec![0.0; 4],
                vec![0.0; 4],
                vec![1.0, 0.0, 0.0, 0.0],
                vec![1.0, 0.0, 0.0, 0.0],
                vec![0.0; 4],
                vec![3.0, 0.0, 0.0, 0.0],
                vec![0.0; 4],
            ],
        ),
        output: output_major_weight(
            shape.q_size().unwrap(),
            shape.hidden_size,
            &[
                vec![1.0, 0.0, 0.0, 0.0],
                vec![0.0, 0.0, 2.0, 0.0],
                vec![0.0; 4],
                vec![0.0; 4],
            ],
        ),
        ffn_norm: vec![1.0; shape.hidden_size],
        feed_forward_w1: vec![0.0; shape.hidden_size * shape.feed_forward_size],
        feed_forward_w2: vec![0.0; shape.feed_forward_size * shape.hidden_size],
        feed_forward_w3: vec![0.0; shape.hidden_size * shape.feed_forward_size],
    }
}

fn toy_cache(shape: SlowArLayerShape, room: usize) -> SlowArKvCache<f32> {
    let spec = KvCacheSpec {
        ggml_type: GgmlType::F16,
        head_dim: shape.head_dim as u32,
        head_count_kv: shape.head_count_kv as u32,
        block_count: 1,
    };
    SlowArKvCache::new(spec, room, 0.0).unwrap()
}

#[test]
fn slow_ar_layer_skeleton_runs_single_token_decode_flow() {
    let shape = toy_shape();
    let hidden = [1.0, 0.0, 0.0, 0.0];
    let weights = toy_attention_weights(shape);
    let layer = weights.skeleton(shape);
    let mut cache = toy_cache(shape, 1);

    let actual = layer
        .forward_decode_token(&hidden, &mut cache, 0, 0, "10000", &calc())
        .unwrap();

    assert_close(&actual.normalized, &[1.0, 0.0, 0.0, 0.0]);
    assert_close(&actual.query, &[1.0, 0.0, 0.0, 1.0]);
    assert_close(&actual.key, &[1.0, 0.0]);
    assert_close(&actual.value, &[3.0, 0.0]);
    assert_close(cache.key_token(0, 0).unwrap(), &[1.0, 0.0]);
    assert_close(cache.value_token(0, 0).unwrap(), &[3.0, 0.0]);
    assert_close(&actual.attention, &[3.0, 0.0, 3.0, 0.0]);
    assert_close(&actual.projected, &[3.0, 6.0, 0.0, 0.0]);
    assert_close(&actual.hidden, &[4.0, 6.0, 0.0, 0.0]);
}

type Arithmetic = fn(Op, f32, f32, f32) -> f32;

struct CountingBackend {
    linear: AtomicUsize,
    rms_norm: AtomicUsize,
    gqa_attention: AtomicUsize,
}

impl MatmulBackend<f32, Arithmetic> for CountingBackend {
    fn name(&self) -> &'static str {
        "counting"
    }

    fn linear(
        &self,
        input: &[f32],
        weight: &[f32],
        input_dim: usize,
        output_dim: usize,
        calc: &Calc<f32, Arithmetic>,
    ) -> Result<Vec<f32>, InferError> {
        self.linear.fetch_add(1, Ordering::Relaxed);
        CpuMatmulBackend::new().linear(input, weight, input_dim, output_dim, calc)
    }

    fn rms_norm(
        &self,
        input: &[f32],
        weight: &[f32],
        eps: u32,
        calc: &Calc<f32, Arithmetic>,
    ) -> Result<Vec<f32>, InferError> {
        self.rms_norm.fetch_add(1, Ordering::Relaxed);
        CpuMatmulBackend::new().rms_norm(input, weight, eps, calc)
    }

    fn rms_norm_heads(
        &self,
        input: &[f32],
        weight: &[f32],
        head_dim: usize,
        eps: u32,
        calc: &Calc<f32, Arithmetic>,
    ) -> Result<Vec<f32>, InferError> {
        self.rms_norm.fetch_add(1, Ordering::Relaxed);
        CpuMatmulBackend::new().rms_norm_heads(input, weight, head_dim, eps, calc)
    }

    fn gqa_decode_attention(
        &self,
        query_heads: &[f32],
        key_tokens: &[f32],
        value_tokens: &[f32],
        shape: GqaAttentionShape,
        calc: &Calc<f32, Arithmetic>,
    ) -> Result<Vec<f32>, InferError> {
        self.gqa_attention.fetch_add(1, Ordering::Relaxed);
        CpuMatmulBackend::new().gqa_decode_attention(
            query_heads,
            key_tokens,
            value_tokens,
            shape,
            calc,
        )
    }
}

#[test]
fn slow_ar_decode_hot_ops_route_through_backend_trait() {
    let shape = toy_shape();
    let mut cache = toy_cache(shape, 1);
    let weights = toy_attention_weights(shape);
    let layer = weights.skeleton(shape);
    let backend = CountingBackend {
        linear: AtomicUsize::new(0),
        rms_norm: AtomicUsize::new(0),
        gqa_attention: AtomicUsize::new(0),
    };
    let mut profile = SlowArDecodeProfile::zero();

    let actual = layer
        .forward_decode_token_with_backend(
            &backend,
            &[1.0, 0.0, 0.0, 0.0],
            &mut cache,
            0,
            0,
            "10000",
            &mut profile,
            &calc(),
        )
        .unwrap();

    assert_close(&actual.hidden, &[4.0, 6.0, 0.0, 0.0]);
    assert_eq!(backend.linear.load(Ordering::Relaxed), 2);
    assert_eq!(backend.rms_norm.load(Ordering::Relaxed), 3);
    assert_eq!(backend.gqa_attention.load(Ordering::Relaxed), 1);
    let names = profile
        .top_ops(7)
        .into_iter()
        .map(|(name, _)| name)
        .collect::<Vec<_>>();
    assert!(names.contains(&"linear"));
    assert!(names.contains(&"rms_norm"));
    assert!(names.contains(&"gqa_attention"));
    assert_eq!(profile.swiglu, 0);
    assert_eq!(profile.output_head, 0);

    let attended = profile;
    layer
        .forward_feed_forward_with_backend(
            &backend,
            &[1.0, 0.0, 0.0, 0.0],
            "10000",
            &mut profile,
            &calc(),
        )
        .unwrap();
    assert_eq!(backend.linear.load(Ordering::Relaxed), 5);
    assert_eq!(backend.rms_norm.load(Ordering::Relaxed), 4);
    assert_eq!(profile.rope, attended.rope);
    assert_eq!(profile.kv_write, attended.kv_write);
    assert!(profile.linear >= attended.linear);
}

struct Broken;

impl MatmulBackend<f32, Arithmetic> for Broken {
    fn name(&self) -> &'static str {
        "broken"
    }

    fn linear(
        &self,
        _: &[f32],
        _: &[f32],
        _: usize,
        _: usize,
        _: &Calc<f32, Arithmetic>,
    ) -> Result<Vec<f32>, InferError> {
        Err(InferError::Message("no product".to_string()))
    }

    fn rms_norm(
        &self,
        input: &[f32],
        _: &[f32],
        _: u32,
        _: &Calc<f32, Arithmetic>,
    ) -> Result<Vec<f32>, InferError> {
        Ok(input.to_vec())
    }

    fn rms_norm_heads(
        &self,
        input: &[f32],
        _: &[f32],
        _: usize,
        _: u32,
        _: &Calc<f32, Arithmetic>,
    ) -> Result<Vec<f32>, InferError> {
        Ok(input.to_vec())
    }

    fn gqa_decode_attention(
        &self,
        query_heads: &[f32],
        _: &[f32],
        _: &[f32],
        _: GqaAttentionShape,
        _: &Calc<f32, Arithmetic>,
    ) -> Result<Vec<f32>, InferError> {
        Ok(query_heads.to_vec())
    }
}

#[test]
fn scores_are_scaled_by_the_size_of_a_head() {
    let shape = toy_shape();
    assert_eq!(shape.attn_scale(), AttentionScale::OfHead(shape.head_dim));
    let half = |scale: AttentionScale| {
        gqa_decode_attention(
            &[1.0, 0.0, 0.0, 0.0],
            &[1.0, 0.0, 0.0, 0.0, 0.0, 0.0, 0.0, 0.0],
            &[1.0, 0.0, 0.0, 0.0, 0.0, 0.0, 0.0, 0.0],
            GqaAttentionShape {
                head_count: 1,
                head_count_kv: 1,
                head_dim: 4,
                token_count: 2,
                attn_scale: scale,
            },
            &calc(),
        )
        .unwrap()
    };
    let expected = 0.5f32.exp() / (0.5f32.exp() + 1.0);
    assert_close(&half(AttentionScale::OfHead(4)), &[expected, 0.0, 0.0, 0.0]);
    assert_close(
        &half(AttentionScale::Number(0.5f32.to_bits())),
        &[expected, 0.0, 0.0, 0.0],
    );
}

#[test]
fn backends_that_fail_are_heard() {
    let out = linear_with_backend(
        &CpuMatmulBackend::new(),
        &[1.0, 2.0],
        &[1.0, 0.0, 0.0, 1.0],
        2,
        2,
        &calc(),
    );
    assert_close(&out.unwrap(), &[1.0, 2.0]);
    let shape = toy_shape();
    let weights = toy_attention_weights(shape);
    let layer = weights.skeleton(shape);
    let mut profile = SlowArDecodeProfile::zero();
    let err = layer
        .forward_feed_forward_with_backend(
            &Broken,
            &[1.0, 0.0, 0.0, 0.0],
            "10000",
            &mut profile,
            &calc(),
        )
        .unwrap_err();
    assert_eq!(err.message(), "no product");
}

#[test]
fn slow_ar_layer_skeleton_runs_multi_token_decode_sequence() {
    let shape = toy_shape();
    let hidden_tokens = vec![vec![1.0, 0.0, 0.0, 0.0], vec![1.0, 1.0, 0.0, 0.0]];
    let mut cache = toy_cache(shape, 2);
    let weights = toy_attention_weights(shape);
    let layer = weights.skeleton(shape);

    let outputs = layer
        .forward_decode_sequence(&hidden_tokens, &mut cache, 0, 0, "10000", &calc())
        .unwrap();
    let mut prefill_cache = toy_cache(shape, 2);
    let prefill_outputs = layer
        .forward_prefill_sequence(&hidden_tokens, &mut prefill_cache, 0, 0, "10000", &calc())
        .unwrap();

    assert_eq!(outputs.len(), 2);
    assert_eq!(prefill_outputs.len(), outputs.len());
    for (prefilled, decoded) in prefill_outputs.iter().zip(&outputs) {
        assert_eq!(prefilled.normalized, decoded.normalized);
        assert_eq!(prefilled.query, decoded.query);
        assert_eq!(prefilled.key, decoded.key);
        assert_eq!(prefilled.value, decoded.value);
        assert_eq!(prefilled.attention, decoded.attention);
        assert_eq!(prefilled.projected, decoded.projected);
        assert_eq!(prefilled.hidden, decoded.hidden);
    }
    assert_close(&outputs[0].key, cache.key_token(0, 0).unwrap());
    assert_close(&outputs[0].value, cache.value_token(0, 0).unwrap());
    assert_close(&outputs[1].key, cache.key_token(0, 1).unwrap());
    assert_close(&outputs[1].value, cache.value_token(0, 1).unwrap());
    assert_close(
        prefill_cache.key_token(0, 0).unwrap(),
        cache.key_token(0, 0).unwrap(),
    );
    assert_close(
        prefill_cache.value_token(0, 1).unwrap(),
        cache.value_token(0, 1).unwrap(),
    );
    assert!(all_finite(&outputs[1].attention));
    assert!(all_finite(&outputs[1].hidden));
    assert_ne!(outputs[0].hidden, outputs[1].hidden);
}

#[test]
fn slow_ar_layer_skeleton_runs_block_prefill_with_ffn_residual() {
    let shape = toy_shape();
    let mut cache = toy_cache(shape, 1);
    let weights = toy_attention_weights(shape);
    let layer = weights.skeleton(shape);
    let outputs = layer
        .forward_block_prefill_sequence(
            &[vec![1.0, 0.0, 0.0, 0.0]],
            &mut cache,
            0,
            0,
            "10000",
            &calc(),
        )
        .unwrap();

    assert_eq!(outputs.len(), 1);
    assert_close(&outputs[0].attention.hidden, &[4.0, 6.0, 0.0, 0.0]);
    assert_close(&outputs[0].feed_forward.projected, &[0.0, 0.0, 0.0, 0.0]);
    assert_close(&outputs[0].hidden, &outputs[0].attention.hidden);
}

#[test]
fn swiglu_split_applies_silu_gate() {
    let actual = swiglu_split(&[0.0, 1.0], &[2.0, 3.0], &calc()).unwrap();
    assert_close(&actual, &[0.0, 3.0 / (1.0 + (-1.0f32).exp())]);
}

#[test]
fn slow_ar_layer_skeleton_rejects_bad_weight_shapes() {
    let shape = toy_shape();
    let ffn_norm = [1.0; 4];
    let feed_forward_w1 = vec![0.0; shape.hidden_size * shape.feed_forward_size];
    let feed_forward_w2 = vec![0.0; shape.feed_forward_size * shape.hidden_size];
    let feed_forward_w3 = vec![0.0; shape.hidden_size * shape.feed_forward_size];
    let layer = SlowArLayerSkeleton {
        shape,
        attention_norm_weight: &[1.0; 4],
        q_norm_weight: &[1.0; 2],
        k_norm_weight: &[1.0; 2],
        wqkv_weight: &[0.0; 3],
        output_weight: &[0.0; 16],
        ffn_norm_weight: &ffn_norm,
        feed_forward_w1_weight: &feed_forward_w1,
        feed_forward_w2_weight: &feed_forward_w2,
        feed_forward_w3_weight: &feed_forward_w3,
    };
    let mut cache = toy_cache(shape, 1);
    let err = layer
        .forward_decode_token(&[0.0; 4], &mut cache, 0, 0, "10000", &calc())
        .unwrap_err()
        .message();
    assert!(err.contains("wqkv_weight length mismatch"));
}

#[test]
fn profiles_list_their_largest_parts_first() {
    let mut profile = SlowArDecodeProfile::zero();
    profile.charge(SlowArProfileOp::Linear, 5);
    profile.charge(SlowArProfileOp::RmsNorm, 7);
    profile.charge(SlowArProfileOp::Linear, 4);
    let mut sum = SlowArDecodeProfile::zero();
    sum.add_assign(profile);
    assert_eq!(sum.total(), 16);
    let top = sum.top_ops(2);
    assert_eq!(top, vec![("linear", 9), ("rms_norm", 7)]);
}
