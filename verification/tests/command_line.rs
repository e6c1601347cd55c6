use fish_s2::args::{
    path_report, CodecArgs, CodecProgram, GgufDumpArgs, PromptTextSource, ServerArgs, SlowArArgs,
    SpeechArgs, SpeechProgram,
};
use fish_s2::codec_registry::CodecTensorDumpRow;
use fish_s2::dumps::{
    auto_discover_pair, choose_voice, codec_dump_header, codec_dump_lines, gguf_dump_lines,
    optional_usize, top_logits,
};
use fish_s2::engine::{EngineBackend, EngineConfig};
use fish_s2::gguf::{GgmlType, GgufTensorInfo};
use fish_s2::graph::FloatReading;
use fish_s2::prompt::PromptCodesFile;

fn words(args: &[&str]) -> Vec<String> {
    args.iter().map(|a| a.to_string()).collect()
}

fn readings(args: &[&str]) -> Vec<FloatReading> {
    args.iter()
        .map(|a| match a.parse::<f32>() {
            Ok(v) => FloatReading::Value(v.to_bits(), v.to_string()),
            Err(e) => FloatReading::Invalid(e.to_string()),
        })
        .collect()
}

fn speech(p: SpeechProgram, args: &[&str]) -> Result<Option<SpeechArgs>, String> {
    SpeechArgs::parse(p, &words(args), &readings(args), "/r").map_err(|e| e.message())
}

fn codec(p: CodecProgram, args: &[&str]) -> Result<Option<CodecArgs>, String> {
    CodecArgs::parse(p, &words(args), &readings(args), "/r").map_err(|e| e.message())
}

#[test]
fn speech_without_arguments_is_the_usual_one() {
    let a = speech(SpeechProgram::Sound, &[]).unwrap().unwrap();
    assert_eq!(a.transformer, "/r/models/s2-pro-f16-transformer-only.gguf");
    assert_eq!(a.tokenizer, "/r/models/tokenizer.json");
    assert_eq!(a.wav, "/r/output/e2e_hi_rust.wav");
    assert_eq!(a.text, "hi");
    assert_eq!(a.params.max_new_tokens, 1);
    assert_eq!(a.params.top_p, 1.0f32.to_bits());
    assert_eq!(a.seed, 0);
}

#[test]
fn later_flags_count() {
    let a = speech(
        SpeechProgram::Codes,
        &[
            "--transformer",
            "t",
            "--output",
            "o",
            "--top-k",
            "-5",
            "--temperature",
            "0.5",
            "--text",
            "a",
            "--text",
            "b",
            "--seed",
            "18446744073709551615",
        ],
    )
    .unwrap()
    .unwrap();
    assert_eq!(a.text, "b");
    assert_eq!(a.params.top_k, -5);
    assert_eq!(a.params.temperature, 0.5f32.to_bits());
    assert_eq!(a.params.max_new_tokens, 2);
    assert_eq!(a.seed, u64::MAX);
}

#[test]
fn wrong_arguments_are_named() {
    let err = |p, args: &[&str]| speech(p, args).unwrap_err();
    assert_eq!(
        err(SpeechProgram::Codes, &["--codec", "c"]),
        "unknown argument: --codec"
    );
    assert_eq!(err(SpeechProgram::Codes, &[]), "missing --transformer");
    assert_eq!(
        err(SpeechProgram::Semantic, &["--transformer", "t"]),
        "missing --output"
    );
    assert_eq!(
        err(SpeechProgram::Sound, &["--seed"]),
        "missing --seed"
    );
    assert_eq!(
        err(SpeechProgram::Sound, &["--seed", "x"]),
        "invalid digit found in string"
    );
    assert_eq!(
        err(SpeechProgram::Sound, &["--top-p", "x"]),
        "invalid float literal"
    );
    assert_eq!(
        err(SpeechProgram::FirstFrame, &["--top-k", "x"]),
        "--top-k: invalid digit found in string"
    );
    assert_eq!(
        err(SpeechProgram::FirstFrame, &["--text"]),
        "missing --text value"
    );
    assert!(speech(SpeechProgram::Sound, &["-h", "--nonsense"])
        .unwrap()
        .is_none());
}

#[test]
fn codec_programs_have_files_of_their_own() {
    let a = codec(CodecProgram::Waveform, &["--wav", "w"]).unwrap().unwrap();
    assert_eq!(a.output, "/r/output/waveform_hi_rust.json");
    assert_eq!(a.codes, "/r/output/generated_codes_hi_rust.json");
    assert_eq!(a.wav.as_deref(), Some("w"));
    assert_eq!(
        codec(CodecProgram::RvqLookup, &["--wav", "w"]).unwrap_err(),
        "unknown argument: --wav"
    );
    assert_eq!(
        codec(CodecProgram::EncoderStage, &["--samples", "-1"]).unwrap_err(),
        "invalid --samples -1: invalid digit found in string"
    );
    assert_eq!(
        codec(CodecProgram::Dump, &["--limit", ""]).unwrap_err(),
        "invalid --limit: cannot parse integer from empty string"
    );
    let r = codec(
        CodecProgram::Reference,
        &["--prompt-codes-format", "--prompt-text-file", "f"],
    )
    .unwrap()
    .unwrap();
    assert!(r.prompt_codes_format);
    assert_eq!(r.samples, 2048);
    assert!(matches!(r.prompt_text().unwrap(), PromptTextSource::File(f) if f == "f"));
    let none = codec(CodecProgram::Reference, &[]).unwrap().unwrap();
    assert_eq!(
        none.prompt_text().unwrap_err().message(),
        "--prompt-codes-format requires --prompt-text or --prompt-text-file"
    );
}

#[test]
fn layers_and_tokens_are_counted_from_one() {
    let parse = |args: &[&str]| {
        SlowArArgs::parse(&words(args), &readings(args)).map_err(|e| e.message())
    };
    let a = parse(&["--transformer", "t", "--logits", "--layers", "3"])
        .unwrap()
        .unwrap();
    assert_eq!((a.layer, a.layers, a.tokens, a.top_k), (0, 3, 1, 8));
    assert!(a.logits);
    assert_eq!(
        parse(&["--layers", "0"]).unwrap_err(),
        "--layers must be greater than zero"
    );
    assert_eq!(
        parse(&["--layer"]).unwrap_err(),
        "missing value for --layer"
    );
    assert_eq!(
        parse(&["--layer", "x"]).unwrap_err(),
        "invalid --layer value x: invalid digit found in string"
    );
    assert_eq!(
        parse(&["--transformer"]).unwrap_err(),
        "missing --transformer <path>"
    );
}

#[test]
fn the_server_takes_short_flags() {
    let parse = |args: &[&str]| {
        ServerArgs::parse(&words(args), &readings(args)).map_err(|e| e.message())
    };
    let a = parse(&["-t", "t", "-p", "99", "--backend", "CUDA", "--max-new-tokens", "5"])
        .unwrap()
        .unwrap();
    assert_eq!(a.transformer.as_deref(), Some("t"));
    assert_eq!(a.port, 99);
    assert_eq!(a.backend, Some(EngineBackend::FfiCuda));
    let mut config = EngineConfig::new("t".into(), "c".into(), true, true, "/r").unwrap();
    a.apply(&mut config);
    assert_eq!(config.backend, EngineBackend::FfiCuda);
    assert_eq!(config.generate_params.max_new_tokens, 5);
    assert_eq!(parse(&[]).unwrap().unwrap().port, 8081);
    assert!(parse(&["--print-paths"]).unwrap().unwrap().print_paths);
    assert_eq!(parse(&["-p", "70000"]).unwrap_err(), "invalid port");
    assert_eq!(parse(&["-c"]).unwrap_err(), "missing --codec path");
    assert_eq!(parse(&["x"]).unwrap_err(), "unknown arg: x");
    assert_eq!(path_report("/r")[1], "models_dir=/r/models");
}

#[test]
fn listings_need_a_model() {
    let usage = "usage: fish_s2_gguf_dump <model.gguf> [--limit N] [--contains TEXT] [--output tensors.tsv]";
    let parse = |path: Option<&str>, args: &[&str]| {
        GgufDumpArgs::parse(path.map(|p| p.to_string()), &words(args), &readings(args))
            .map_err(|e| e.message())
    };
    assert_eq!(parse(None, &[]).unwrap_err(), usage);
    assert_eq!(parse(Some("m"), &["--help"]).unwrap_err(), usage);
    assert_eq!(parse(Some("m"), &["--limit"]).unwrap_err(), usage);
    assert_eq!(
        parse(Some("m"), &["--limit", "x"]).unwrap_err(),
        "invalid --limit value: invalid digit found in string"
    );
    let a = parse(Some("m"), &["--limit", "2", "--contains", "w"]).unwrap();
    assert_eq!((a.path.as_str(), a.limit), ("m", Some(2)));
    assert_eq!(a.contains.as_deref(), Some("w"));
}

fn tensor(name: &str, offset: u64) -> GgufTensorInfo {
    GgufTensorInfo {
        name: name.to_string(),
        dimensions: vec![2, 3],
        ggml_type: GgmlType::F16,
        relative_offset: offset,
    }
}

#[test]
fn tensors_are_listed_in_order() {
    let tensors = vec![tensor("a.weight", 0), tensor("b.bias", 32), tensor("c.weight", 64)];
    let (all, problem) = gguf_dump_lines(&tensors, 100, None, None);
    assert!(problem.is_none());
    assert_eq!(all[1], "1\tb.bias\tF16\t2x3\t6\t12\t32\t132");
    let (some, _) = gguf_dump_lines(&tensors, 100, Some("weight"), Some(1));
    assert_eq!(some.len(), 1);
    assert!(some[0].starts_with("0\ta.weight"));
    let mut endless = tensor("d", 0);
    endless.dimensions = vec![u64::MAX, 2];
    let (before, problem) = gguf_dump_lines(&vec![tensor("a", 0), endless], 0, None, None);
    assert_eq!(before.len(), 1);
    assert!(problem.is_some());
}

#[test]
fn codec_tensors_are_listed_with_their_roles() {
    let row = CodecTensorDumpRow {
        index: 3,
        component: "decoder".into(),
        role: "conv".into(),
        module: None,
        layer: Some(2),
        quantizer_index: None,
        name: "x".into(),
        ggml_type: GgmlType::F16,
        dimensions: vec![7, 1],
        elements: 7,
        bytes: 14,
        relative_offset: 0,
        absolute_offset: 64,
    };
    let lines = codec_dump_lines(&vec![row], Some("x"), None);
    assert_eq!(lines[0], "3\tdecoder\tconv\t\t2\t\tx\tF16\t7x1\t7\t14\t0\t64");
    assert_eq!(
        codec_dump_header().split('\t').count(),
        lines[0].split('\t').count()
    );
    assert_eq!(optional_usize(None), "");
}

#[test]
fn the_first_pair_in_order_is_discovered() {
    let files = words(&[
        "m/b-transformer-only.gguf",
        "m/a_Transformer_Only.gguf",
        "m/z-codec-only.gguf",
        "m/codec-only.txt",
    ]);
    let (t, c) = auto_discover_pair(&files).unwrap();
    assert_eq!(t, "m/a_Transformer_Only.gguf");
    assert_eq!(c, "m/z-codec-only.gguf");
    assert_eq!(
        auto_discover_pair(&files[..2].to_vec()).unwrap_err().message(),
        "no *-codec-only.gguf in models/"
    );
    assert_eq!(
        auto_discover_pair(&Vec::new()).unwrap_err().message(),
        "no *-transformer-only.gguf in models/"
    );
}

#[test]
fn voices_come_from_their_file() {
    let file = || PromptCodesFile {
        prompt_text: "said".into(),
        num_codebooks: 1,
        cols: 1,
        codes: vec![4],
    };
    let (text, codes) = choose_voice(None, Some(file())).unwrap().unwrap();
    assert_eq!(text, "said");
    assert_eq!(codes.data, vec![4]);
    let (text, _) = choose_voice(Some("mine".into()), Some(file())).unwrap().unwrap();
    assert_eq!(text, "mine");
    assert!(choose_voice(None, None).unwrap().is_none());
    assert_eq!(
        choose_voice(Some("mine".into()), None).unwrap_err().message(),
        "--prompt-text requires --prompt-codes"
    );
}

#[test]
fn the_largest_logits_come_first() {
    let bits: Vec<u32> = [1.0f32, -2.0, 3.0, 3.0, -0.0, 0.0]
        .iter()
        .map(|v| v.to_bits())
        .collect();
    assert_eq!(top_logits(&bits, 3), vec![2, 3, 0]);
    assert_eq!(top_logits(&bits, 99), vec![2, 3, 0, 5, 4, 1]);
}
