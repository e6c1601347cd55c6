use fish_s2::codec_blocks::{
    downsample_output_frames, encoder_downsample_output_frames, forward_codec_residual_unit,
    pad_sample_count,
};
use fish_s2::codec_coder::{
    forward_codec_encoder_frontend, forward_codec_encoder_frontend_with_checkpoints,
};
use fish_s2::codec_coder_weights::{
    CodecDecoderBlockValues, CodecDecoderValues, CodecEncoderValues,
};
use fish_s2::codec_decode::{forward_codec_decoder, forward_codec_decoder_block};
use fish_s2::codec_layer::forward_codec_transformer_layer_with_window;
use fish_s2::codec_names::CodecQuantizerWeights;
use fish_s2::codec_registry::{classify_codec_tensor, format_codec_dimensions};
use fish_s2::codec_weights::{
    CodecModuleValues, CodecQuantizerValues, CodecResidualUnitValues, CodecTransformerLayerValues,
};
use fish_s2::conv::{
    layer_norm_affine_frame_major, linear_bias_frame_major, scale_frame_major_channels,
    snake_activation_frame_major,
};
use fish_s2::convolve::{
    causal_conv_1d_frame_major, extra_padding_for_conv1d, Conv1dFrameMajorSpec,
};
use fish_s2::half::f16_bits_to_f32;
use fish_s2::numeric::{Calc, Op};
use fish_s2::rvq_codes::{rvq_encode_latents_nearest, rvq_lookup_codes, CodecValues};
use fish_s2::single::round_int;
use fish_s2::transpose::{
    causal_conv_transpose_1d, depthwise_causal_conv1d, ConvTranspose1dSpec,
};
use fish_s2::pcm::sample;
use fish_s2::wav::{pcm_to_wav, wav_audio_from_bytes, ParsedWav};
use fish_s2::wav_check::{analyze_wav_bytes, wav_warning};
use fish_s2::wav_mono::wav_mono_f32_from_bytes;
use fish_s2::waveform::decode_waveform;

fn op(o: Op, a: f32, b: f32, c: f32) -> f32 {
    match o {
        Op::MulAdd => a + b * c,
        Op::Plus => a + b,
        Op::Minus => a - b,
        Op::Times => a * b,
        Op::Over => a / b,
        Op::Larger => a.max(b),
        Op::Raise => (a - b).exp(),
        Op::Weigh => a * b * c,
        Op::Gate => a * (1.0 / (1.0 + (-a).exp())) * b,
        Op::Snake => {
            let s = if b.abs() < 1e-8 { 1e-8 } else { b };
            let sin = (s * a).sin();
            a + sin * sin / s
        }
        Op::Gelu => 0.5 * a * (1.0 + (a * std::f32::consts::FRAC_1_SQRT_2).tanh()),
        Op::Tanh => a.tanh(),
        Op::Root => a.sqrt(),
        Op::Length => a.max(1e-12).sqrt(),
        Op::OverCount(n) => a / n as f32,
        Op::GateOver => a / (1.0 + (-a).exp()) * b,
        Op::NormScale(n, eps) => (a / n as f32 + f32::from_bits(eps)).sqrt().recip(),
        Op::ScaleBy(bits) => a * f32::from_bits(bits),
        Op::HeadScale(n) => a * (n as f32).sqrt().recip(),
        Op::RootOver(n) => 1.0 / (n as f32).sqrt(),
        Op::Cos(position, place, head_dim, base) => angle(position, place, head_dim, base).cos(),
        Op::Sin(position, place, head_dim, base) => angle(position, place, head_dim, base).sin(),
        Op::Half(bits) => f32::from_bits(f16_bits_to_f32(bits)),
        Op::Single(bits) => f32::from_bits(bits),
        Op::Sample(value, full) => value as f32 / full as f32,
        Op::Temper(bits) => {
            let t = f32::from_bits(bits);
            if t > 0.0 {
                ((a - b) / t).exp()
            } else if (a - b).abs() < 1e-6 {
                1.0
            } else {
                0.0
            }
        }
        Op::Share => {
            if b > 0.0 {
                a / b
            } else {
                a
            }
        }
        Op::Draw(fraction) => {
            let unit = fraction as f64 / (1u64 << 53) as f64;
            (unit as f32).clamp(0.0, 1.0 - 1e-7)
        }
    }
}

fn angle(position: usize, place: usize, head_dim: usize, base: u32) -> f32 {
    position as f32 / f32::from_bits(base).powf(place as f32 / head_dim as f32)
}

fn calc() -> Calc<f32, fn(Op, f32, f32, f32) -> f32> {
    Calc { zero: 0.0, op }
}

fn assert_close(actual: &[f32], expected: &[f32]) {
    assert_eq!(actual.len(), expected.len());
    for (actual, expected) in actual.iter().zip(expected) {
        assert!(
            (actual - expected).abs() < 1e-4,
            "expected {expected}, got {actual}"
        );
    }
}

// ---------------------------------------------------------------------
// Names
// ---------------------------------------------------------------------

#[test]
fn classifies_semantic_and_residual_quantizer_tensors() {
    let semantic =
        classify_codec_tensor("quantizer.semantic_quantizer.quantizers.0.codebook.weight");
    assert_eq!(semantic.role, "semantic_codebook");
    assert_eq!(semantic.quantizer_index, Some(0));

    let residual = classify_codec_tensor("quantizer.quantizer.quantizers.8.out_proj.weight");
    assert_eq!(residual.role, "residual_out_proj_weight");
    assert_eq!(residual.quantizer_index, Some(8));
}

#[test]
fn classifies_pre_and_post_module_layers() {
    let pre = classify_codec_tensor("quantizer.pre_module.layers.7.attention.wqkv.weight");
    assert_eq!(pre.module.as_deref(), Some("quantizer.pre_module"));
    assert_eq!(pre.layer, Some(7));
    assert_eq!(pre.role, "transformer_attention_wqkv");

    let post = classify_codec_tensor("quantizer.post_module.norm.weight");
    assert_eq!(post.role, "transformer_output_norm");
    assert_eq!(post.layer, None);
}

#[test]
fn codec_quantizer_names_match_gguf_prefixes() {
    let semantic = CodecQuantizerWeights::semantic();
    assert_eq!(
        semantic.codebook_weight,
        "quantizer.semantic_quantizer.quantizers.0.codebook.weight"
    );
    let residual = CodecQuantizerWeights::residual(3);
    assert_eq!(
        residual.in_proj_weight,
        "quantizer.quantizer.quantizers.3.in_proj.weight"
    );
    assert_eq!(format_codec_dimensions(&[7, 1, 64]), "7x1x64");
}

// ---------------------------------------------------------------------
// Frames
// ---------------------------------------------------------------------

#[test]
fn convolutions_see_only_what_came_before() {
    let spec = Conv1dFrameMajorSpec {
        frames: 3,
        in_ch: 1,
        out_ch: 1,
        stride: 1,
        dilation: 1,
    };
    let out = causal_conv_1d_frame_major(&[1.0, 2.0, 3.0], spec, &[10.0, 1.0], &[0.5], &calc());
    assert_close(&out.unwrap(), &[1.5, 12.5, 23.5]);
}

#[test]
fn long_strides_round_frames_up() {
    for stride in [2usize, 3, 4, 5, 7, 8, 11] {
        for frames in 1..20usize {
            let spec = Conv1dFrameMajorSpec {
                frames,
                in_ch: 1,
                out_ch: 1,
                stride,
                dilation: 1,
            };
            let input = vec![1.0; frames];
            let weight = vec![1.0; 2 * stride];
            let out = causal_conv_1d_frame_major(&input, spec, &weight, &[0.0], &calc()).unwrap();
            assert_eq!(out.len(), frames.div_ceil(stride));
            assert_eq!(
                out.len(),
                encoder_downsample_output_frames(frames, stride).unwrap()
            );
        }
    }
}

#[test]
fn convolutions_refuse_what_does_not_fit() {
    let spec = Conv1dFrameMajorSpec {
        frames: 2,
        in_ch: 1,
        out_ch: 1,
        stride: 1,
        dilation: 1,
    };
    assert!(causal_conv_1d_frame_major(&[1.0], spec, &[1.0], &[0.0], &calc()).is_err());
    assert_eq!(
        causal_conv_1d_frame_major(&[1.0, 2.0], spec, &[1.0], &[], &calc())
            .unwrap_err()
            .message(),
        "causal conv bias length mismatch: expected 1, got 0"
    );
    let still = Conv1dFrameMajorSpec { stride: 0, ..spec };
    assert_eq!(
        causal_conv_1d_frame_major(&[1.0, 2.0], still, &[1.0], &[0.0], &calc())
            .unwrap_err()
            .message(),
        "causal conv output frame overflow"
    );
    let empty = Conv1dFrameMajorSpec { in_ch: 0, ..spec };
    assert_eq!(
        causal_conv_1d_frame_major(&[1.0, 2.0], empty, &[1.0], &[0.0], &calc())
            .unwrap_err()
            .message(),
        "causal conv input length mismatch: expected 0, got 2"
    );
}

#[test]
fn padding_is_counted_in_single_precision() {
    let expected = |length: usize, kernel: usize, stride: usize, padding: usize| {
        let windows = (length as f32 - kernel as f32 + padding as f32) / stride as f32 + 1.0;
        (windows.ceil() as usize)
            .saturating_sub(1)
            .saturating_mul(stride)
            .saturating_add(kernel.saturating_sub(padding))
            .saturating_sub(length)
    };
    let mut state = 1u64;
    let mut draw = || {
        state = state.wrapping_mul(6364136223846793005).wrapping_add(1442695040888963407);
        let shift = (state >> 58) as u32;
        (state >> shift.min(60)) as usize
    };
    for _ in 0..20000 {
        let (length, kernel, stride, padding) = (draw(), draw(), draw(), draw());
        assert_eq!(
            extra_padding_for_conv1d(length, kernel, stride, padding),
            expected(length, kernel, stride, padding),
            "{length} {kernel} {stride} {padding}"
        );
    }
    for length in 0..40 {
        for kernel in 0..12 {
            for stride in 0..14 {
                assert_eq!(
                    extra_padding_for_conv1d(length, kernel, stride, kernel / 2),
                    expected(length, kernel, stride, kernel / 2)
                );
            }
        }
    }
}

#[test]
fn spreading_nothing_leaves_the_bias() {
    let spec = ConvTranspose1dSpec {
        frames: 2,
        in_ch: 0,
        out_ch: 1,
        stride: 2,
        crop_right: 1,
    };
    let out = causal_conv_transpose_1d(&[], spec, &[], &[0.5], &calc());
    assert_close(&out.unwrap(), &[0.5, 0.5, 0.5]);
    let still = ConvTranspose1dSpec {
        in_ch: 1,
        stride: 0,
        crop_right: 0,
        ..spec
    };
    let out = causal_conv_transpose_1d(&[1.0, 2.0], still, &[1.0], &[0.5], &calc());
    assert!(out.unwrap().is_empty());
    let closed = ConvTranspose1dSpec { out_ch: 0, ..spec };
    assert_eq!(
        causal_conv_transpose_1d(&[], closed, &[1.0], &[], &calc())
            .unwrap_err()
            .message(),
        "conv_transpose weight length mismatch: expected 0, got 1"
    );
}

#[test]
fn empty_kernels_with_wrong_sizes_are_refused() {
    assert_eq!(
        depthwise_causal_conv1d(&[1.0], 1, 1, 0, &[2.0], &[0.0], &calc())
            .unwrap_err()
            .message(),
        "depthwise conv weight length mismatch: expected 0, got 1"
    );
}

#[test]
fn spreading_adds_overlapping_windows() {
    let spec = ConvTranspose1dSpec {
        frames: 2,
        in_ch: 1,
        out_ch: 1,
        stride: 2,
        crop_right: 0,
    };
    let out = causal_conv_transpose_1d(&[1.0, 2.0], spec, &[1.0, 10.0, 100.0], &[0.0], &calc());
    assert_close(&out.unwrap(), &[1.0, 10.0, 102.0, 20.0]);
}

#[test]
fn depthwise_kernels_work_channel_by_channel() {
    let out = depthwise_causal_conv1d(
        &[1.0, 10.0, 2.0, 20.0],
        2,
        2,
        2,
        &[1.0, 2.0, 3.0, 4.0],
        &[0.0, 0.5],
        &calc(),
    )
    .unwrap();
    assert_close(&out, &[2.0, 40.5, 5.0, 110.5]);
}

#[test]
fn frames_are_scaled_normed_and_mapped() {
    let c = calc();
    assert_close(
        &scale_frame_major_channels(&[1.0, 2.0, 3.0, 4.0], 2, &[10.0, 100.0], &c).unwrap(),
        &[10.0, 200.0, 30.0, 400.0],
    );
    assert_close(
        &linear_bias_frame_major(&[1.0, 2.0], 1, 2, 1, &[3.0, 4.0], &[0.5], &c).unwrap(),
        &[11.5],
    );
    let normed =
        layer_norm_affine_frame_major(&[1.0, 3.0], 1, 2, &[1.0, 2.0], &[0.0, 1.0], 0, &c).unwrap();
    assert_close(&normed, &[-1.0, 3.0]);
    let snaked = snake_activation_frame_major(&[1.0], 1, 1, &[2.0], &c).unwrap();
    assert_close(&snaked, &[1.0 + 2.0f32.sin().powi(2) / 2.0]);
    assert_eq!(
        snake_activation_frame_major(&[1.0], 1, 1, &[], &c)
            .unwrap_err()
            .message(),
        "snake alpha length mismatch: expected 1, got 0"
    );
}

#[test]
fn counts_of_frames_and_samples() {
    assert_eq!(pad_sample_count(0, 2048).unwrap(), 2048);
    assert_eq!(pad_sample_count(2049, 2048).unwrap(), 4096);
    assert!(pad_sample_count(usize::MAX, 2048).is_err());
    assert_eq!(downsample_output_frames(4).unwrap(), 2);
    assert!(downsample_output_frames(1).is_err());
    assert_eq!(extra_padding_for_conv1d(5, 4, 2, 2), 1);
    assert!(encoder_downsample_output_frames(1, 0).is_err());
}

#[test]
fn whole_numbers_round_as_single_precision_does() {
    for n in [1i128, 16_777_216, 16_777_217, 16_777_219, -33_554_435] {
        assert_eq!(round_int(n), n as f32 as i128);
    }
}

fn unit(channels: usize) -> CodecResidualUnitValues<f32> {
    CodecResidualUnitValues {
        snake0_alpha: vec![1.0; channels],
        conv0_weight: vec![0.0; 7 * channels * channels],
        conv0_bias: vec![0.0; channels],
        snake1_alpha: vec![1.0; channels],
        conv1_weight: vec![0.0; channels * channels],
        conv1_bias: vec![0.25; channels],
    }
}

#[test]
fn residual_units_add_to_what_they_are_given() {
    let out = forward_codec_residual_unit(&[1.0, 2.0], 2, 1, 3, &unit(1), &calc()).unwrap();
    assert_close(&out, &[1.25, 2.25]);
}

#[test]
fn decoder_blocks_raise_the_frame_rate() {
    let block = CodecDecoderBlockValues {
        index: 4,
        snake_alpha: vec![1.0],
        conv_transpose_weight: vec![0.0; 4 * 96],
        conv_transpose_bias: vec![1.0; 96],
        residual_1: unit(96),
        residual_2: unit(96),
        residual_3: unit(96),
    };
    let out = forward_codec_decoder_block(&[0.0], 1, 1, 2, &block, &calc()).unwrap();
    assert_eq!(out.len(), 2 * 96);
    assert!(out.iter().all(|v| (v - 1.75).abs() < 1e-5));
    let unknown = CodecDecoderBlockValues { index: 5, ..block };
    assert_eq!(
        forward_codec_decoder_block(&[0.0], 1, 1, 2, &unknown, &calc())
            .unwrap_err()
            .message(),
        "unknown decoder block index 5"
    );
}

fn idle_decoder() -> CodecDecoderValues<f32> {
    CodecDecoderValues {
        entry_conv_weight: vec![0.0; 1024 * 1536],
        entry_conv_bias: vec![0.0; 1536],
        blocks: Vec::new(),
        tail_snake_alpha: vec![1.0; 1536],
        output_conv_weight: vec![0.0; 1536],
        output_conv_bias: vec![0.5],
    }
}

#[test]
fn decoders_bound_every_sample() {
    let decoder = idle_decoder();
    assert!(decoder.can_be_used());
    let out = forward_codec_decoder(&vec![0.0; 1024], 1, 1024, &decoder, &calc()).unwrap();
    assert_close(&out, &[0.5f32.tanh()]);
    assert_eq!(
        forward_codec_decoder(&[0.0; 8], 1, 8, &decoder, &calc())
            .unwrap_err()
            .message(),
        "decoder expects latent dim 1024, got 8"
    );
}

#[test]
fn encoders_pad_what_they_are_given() {
    let encoder = CodecEncoderValues {
        entry_conv_weight: vec![0.0; 7 * 64],
        entry_conv_bias: vec![0.0; 64],
        blocks: Vec::new(),
        tail_snake_alpha: vec![1.0; 64],
        output_conv_weight: vec![0.0; 64 * 1024],
        output_conv_bias: vec![0.5; 1024],
    };
    assert!(encoder.can_be_used());
    let short = Calc {
        zero: 0.0f32,
        // Only sums matter here, and they stay small.
        op: |o: Op, a: f32, b: f32, c: f32| match o {
            Op::MulAdd => a + b * c,
            Op::Plus => a + b,
            _ => a,
        },
    };
    let out = forward_codec_encoder_frontend(&[0.1; 3], &encoder, &short).unwrap();
    assert_eq!(out.input_samples, 3);
    assert_eq!(out.padded_samples, 2048);
    assert_eq!(out.output_frames, 2048);
    assert_eq!(out.hidden.len(), 2048 * 1024);
    assert!((out.hidden[5] - 0.5).abs() < 1e-6);

    let (same, places) =
        forward_codec_encoder_frontend_with_checkpoints(&[0.1; 3], &encoder, &short).unwrap();
    assert_eq!(same.hidden, out.hidden);
    let names: Vec<&str> = places.iter().map(|place| place.name.as_str()).collect();
    assert_eq!(names, ["entry_conv", "tail_snake", "output_conv"]);
    assert_eq!(places[0].frames, 2048);
    assert_eq!(places[0].channels, 64);
    assert_eq!(places[2].channels, 1024);
    assert_eq!(places[2].hidden, out.hidden);
}

#[test]
fn transformer_layers_keep_the_shape_of_their_tokens() {
    let layer = CodecTransformerLayerValues {
        attention_wqkv: vec![0.0; 1024 * 3072],
        attention_output: vec![0.0; 1024 * 1024],
        attention_norm: vec![1.0; 1024],
        ffn_norm: vec![1.0; 1024],
        feed_forward_w1: vec![0.0; 1024 * 3072],
        feed_forward_w2: vec![0.0; 3072 * 1024],
        feed_forward_w3: vec![0.0; 1024 * 3072],
        attention_layer_scale: vec![1.0; 1024],
        ffn_layer_scale: vec![1.0; 1024],
    };
    let tokens = vec![vec![0.5; 1024]];
    let out = forward_codec_transformer_layer_with_window(&tokens, &layer, 128, &calc()).unwrap();
    assert_eq!(out.len(), 1);
    assert_close(&out[0], &tokens[0]);
}

// ---------------------------------------------------------------------
// Quantizers
// ---------------------------------------------------------------------

fn quantizer(size: usize) -> CodecQuantizerValues<f32> {
    // Code `c` points along axis `c % 8`; projections keep the first eight places.
    let mut codebook = vec![0.0; 8 * size];
    for c in 0..size {
        codebook[8 * c + c % 8] = 1.0 + (c / 8) as f32;
    }
    let mut into = vec![0.0; 1024 * 8];
    let mut out = vec![0.0; 8 * 1024];
    for k in 0..8 {
        into[1024 * k + k] = 1.0;
        out[8 * k + k] = 1.0;
    }
    CodecQuantizerValues {
        in_proj_weight: into,
        in_proj_bias: vec![0.0; 8],
        out_proj_weight: out,
        out_proj_bias: vec![0.0; 1024],
        codebook_weight: codebook,
    }
}

fn quantizers() -> CodecValues<f32> {
    CodecValues {
        semantic_quantizer: quantizer(4096),
        residual_quantizers: vec![quantizer(1024)],
    }
}

fn exceeds(a: f32, b: f32) -> bool {
    a > b
}

#[test]
fn the_first_of_the_nearest_codes_is_taken() {
    let mut frame = vec![0.0; 1024];
    frame[3] = 5.0;
    let q = quantizer(4096);
    let (code, back) = q
        .nearest_code_for_residual(&frame, 4096, &calc(), &exceeds)
        .unwrap();
    assert_eq!(code, 3);
    assert_eq!(back[3], 1.0);
    assert_eq!(
        q.nearest_code_for_residual(&[0.0; 3], 4096, &calc(), &exceeds)
            .unwrap_err()
            .message(),
        "codec VQ residual length mismatch: expected 1024, got 3"
    );
    assert_eq!(
        q.nearest_code_for_residual(&frame, 4095, &calc(), &exceeds)
            .unwrap_err()
            .message(),
        "codec codebook length mismatch: expected 32760, got 32768"
    );
}

#[test]
fn encoded_frames_can_be_looked_up() {
    let w = quantizers();
    let mut latents = vec![0.0; 2 * 1024];
    latents[2] = 4.0;
    latents[1024 + 6] = 2.0;
    let found = rvq_encode_latents_nearest(&latents, 2, &w, &calc(), &exceeds).unwrap();
    assert_eq!(found.num_codebooks, 2);
    assert_eq!(found.codes, vec![2, 6, 2, 6]);
    assert_close(&found.final_residual_l2, &[2.0, 0.0]);
    let back = rvq_lookup_codes(&found.codes, 2, 2, &w, &calc()).unwrap();
    assert_eq!(back.latent_dim, 1024);
    assert_eq!(back.latents[2], 2.0);
    assert_eq!(back.latents[1024 + 6], 2.0);
}

#[test]
fn codes_outside_their_codebooks_are_refused() {
    let w = quantizers();
    let c = calc();
    assert_eq!(
        rvq_lookup_codes(&[0], 1, 1, &w, &c).unwrap_err().message(),
        "codec codebook count mismatch: expected 2, got 1"
    );
    assert_eq!(
        rvq_lookup_codes(&[0], 2, 1, &w, &c).unwrap_err().message(),
        "codec codes length mismatch: expected 2, got 1"
    );
    assert_eq!(
        rvq_lookup_codes(&[0, -1], 2, 1, &w, &c)
            .unwrap_err()
            .message(),
        "codec code must be non-negative, got -1"
    );
    assert_eq!(
        rvq_lookup_codes(&[0, 1024], 2, 1, &w, &c)
            .unwrap_err()
            .message(),
        "embedding index 1024 out of range for vocab_dim 1024"
    );
    assert!(rvq_encode_latents_nearest(&[0.0; 5], 1, &w, &c, &exceeds).is_err());
}

#[test]
fn codes_become_sound() {
    let post = CodecModuleValues {
        layers: Vec::new(),
        norm: vec![1.0; 1024],
    };
    let sound = decode_waveform(
        &[1, 2],
        2,
        1,
        &quantizers(),
        &post,
        &Vec::new(),
        &idle_decoder(),
        &calc(),
    )
    .unwrap();
    assert_eq!(sound.sample_rate, 44_100);
    assert_eq!(sound.latent_frames, 1);
    assert_eq!(sound.num_samples, 1);
    assert_close(&sound.samples, &[0.5f32.tanh()]);
}

// ---------------------------------------------------------------------
// Sound files
// ---------------------------------------------------------------------

fn bits_of(values: &[f32]) -> Vec<u32> {
    values.iter().map(|v| v.to_bits()).collect()
}

fn bits_for(samples: &[i16]) -> Vec<u32> {
    samples
        .iter()
        .map(|s| ((f32::from(*s) + 0.5 * f32::from(s.signum())) / 32767.0).to_bits())
        .collect()
}

#[test]
fn reads_pcm_to_wav_roundtrip() {
    let samples = [-1.0, -0.25, 0.0, 0.25, 0.999];
    let bytes = pcm_to_wav(&bits_of(&samples), 44_100);
    let decoded = wav_mono_f32_from_bytes(&bytes, 44_100, &calc()).expect("decode wav");
    assert_eq!(decoded.len(), samples.len());
    for (actual, expected) in decoded.iter().zip(samples) {
        assert!((actual - expected).abs() <= 2.0 / 32768.0);
    }
}

#[test]
fn samples_are_cut_to_whole_numbers() {
    let mut values = vec![
        0.0f32,
        -0.0,
        1.0,
        -1.0,
        0.5,
        1.0 - f32::EPSILON / 2.0,
        1.0 + f32::EPSILON,
        -7.5,
        f32::MIN_POSITIVE,
        1e-45,
        f32::INFINITY,
        f32::NEG_INFINITY,
        f32::NAN,
        1.0 / 32767.0,
        2.0 / 32767.0,
        -3.0 / 32767.0,
    ];
    let mut state = 7u64;
    for i in 0..50_000u32 {
        state = state.wrapping_mul(6364136223846793005).wrapping_add(1442695040888963407);
        values.push(f32::from_bits((state >> 32) as u32));
        values.push(((state >> 40) as f32 / (1u64 << 23) as f32) - 1.0);
        values.push(i as f32 / 32767.0);
    }
    for v in values {
        let found = sample(v.to_bits());
        assert_eq!(found, (v.clamp(-1.0, 1.0) * 32767.0) as i16, "{v}");
        if v.abs() <= 1.0 {
            assert!((f64::from(found) / 32768.0 - f64::from(v)).abs() <= 2.0 / 32768.0);
        }
    }
}

#[test]
fn headers_hold_the_sizes_of_the_file() {
    let bytes = pcm_to_wav(&bits_for(&[1, -2]), 44_100);
    assert_eq!(bytes.len(), 48);
    assert_eq!(&bytes[0..4], b"RIFF");
    assert_eq!(u32::from_le_bytes(bytes[4..8].try_into().unwrap()), 48);
    assert_eq!(u32::from_le_bytes(bytes[28..32].try_into().unwrap()), 88_200);
    assert_eq!(u16::from_le_bytes(bytes[34..36].try_into().unwrap()), 16);
    assert_eq!(i16::from_le_bytes(bytes[46..48].try_into().unwrap()), -2);
}

#[test]
fn broken_sound_files_are_refused() {
    let bytes = pcm_to_wav(&bits_for(&[1, 2]), 44_100);
    assert_eq!(
        ParsedWav::parse(b"nothing").unwrap_err().message(),
        "not a RIFF/WAVE file"
    );
    assert_eq!(
        wav_audio_from_bytes(&bytes, 48_000).unwrap_err().message(),
        "expected 48000 Hz WAV, got 44100 Hz"
    );
    assert_eq!(
        ParsedWav::parse(&bytes[..46]).unwrap_err().message(),
        "WAV chunk extends past file end"
    );
    assert_eq!(
        ParsedWav::parse(&bytes[..36]).unwrap_err().message(),
        "missing WAV data chunk"
    );
    assert_eq!(
        wav_audio_from_bytes(&pcm_to_wav(&[], 44_100), 44_100)
            .unwrap_err()
            .message(),
        "WAV contains no samples"
    );
}

fn test_wav(samples: &[i16], sample_rate: u32, channels: u16) -> Vec<u8> {
    let data_len = samples.len() * 2;
    let mut bytes = Vec::with_capacity(44 + data_len);
    bytes.extend_from_slice(b"RIFF");
    bytes.extend_from_slice(&(36u32 + data_len as u32).to_le_bytes());
    bytes.extend_from_slice(b"WAVE");
    bytes.extend_from_slice(b"fmt ");
    bytes.extend_from_slice(&16u32.to_le_bytes());
    bytes.extend_from_slice(&1u16.to_le_bytes());
    bytes.extend_from_slice(&channels.to_le_bytes());
    bytes.extend_from_slice(&sample_rate.to_le_bytes());
    let byte_rate = sample_rate * channels as u32 * 2;
    bytes.extend_from_slice(&byte_rate.to_le_bytes());
    let block_align = channels * 2;
    bytes.extend_from_slice(&block_align.to_le_bytes());
    bytes.extend_from_slice(&16u16.to_le_bytes());
    bytes.extend_from_slice(b"data");
    bytes.extend_from_slice(&(data_len as u32).to_le_bytes());
    for sample in samples {
        bytes.extend_from_slice(&sample.to_le_bytes());
    }
    bytes
}

#[test]
fn analyzes_pcm16_wav_duration_and_level() {
    let wav = test_wav(&[0, 16_384, -16_384, 0], 44_100, 1);
    let analysis = analyze_wav_bytes(&wav).unwrap();
    let duration_secs = analysis.frames as f64 / analysis.sample_rate as f64;
    let full = 32768.0f64 * 32768.0;
    let rms = (analysis.square_sum as f64 / full / analysis.samples as f64).sqrt();
    let peak = analysis.peak as f64 / 32768.0;
    assert_eq!(analysis.sample_rate, 44_100);
    assert_eq!(analysis.channels, 1);
    assert!((duration_secs - (4.0 / 44_100.0)).abs() < 1e-9);
    assert!(rms > 0.3);
    assert!(peak > 0.49);
}

#[test]
fn warns_when_wav_is_too_short() {
    let wav = test_wav(&[0; 2048], 44_100, 1);
    let analysis = analyze_wav_bytes(&wav).unwrap();
    let warning = wav_warning(&analysis, 1, "0.046", "0.000000", "0.000000").unwrap();
    assert!(warning.contains("太短"));
    assert!(warning.contains("max_new_tokens=1"));
}

#[test]
fn warns_when_wav_is_almost_silent() {
    let quiet = analyze_wav_bytes(&test_wav(&[1; 44_100], 44_100, 1)).unwrap();
    assert!(wav_warning(&quiet, 1, "1", "0", "0").unwrap().contains("靜音"));
    let loud = analyze_wav_bytes(&test_wav(&[9_000; 44_100], 44_100, 1)).unwrap();
    assert!(wav_warning(&loud, 1, "1", "0", "0").is_none());
    assert!(analyze_wav_bytes(b"RIFF").is_none());
}

#[test]
fn channels_are_mixed_to_one() {
    let wav = test_wav(&[16_384, 0, -16_384, -16_384], 44_100, 2);
    let mono = wav_mono_f32_from_bytes(&wav, 44_100, &calc()).unwrap();
    assert_close(&mono, &[0.25, -0.5]);
    let odd = test_wav(&[1, 2, 3], 44_100, 2);
    assert_eq!(
        wav_mono_f32_from_bytes(&odd, 44_100, &calc())
            .unwrap_err()
            .message(),
        "WAV sample count is not divisible by channel count"
    );
}

#[test]
fn written_files_are_measured() {
    let analysis = analyze_wav_bytes(&pcm_to_wav(&bits_for(&[3, -4]), 8_000)).unwrap();
    assert_eq!(analysis.frames, 2);
    assert_eq!(analysis.square_sum, 25);
    assert_eq!(analysis.peak, 4);
}
