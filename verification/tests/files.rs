use fish_s2::config::{normalize_server_backend, AppConfig};
use fish_s2::convert::{resolve_export_script, ConvertPlan};
use fish_s2::gguf::{
    align_to, validate_tensor_bounds, GgmlType, GgufFile, GgufTensorInfo, GGUF_ALIGNMENT,
};
use fish_s2::gguf_read::{read_directory, MetadataValue};
use fish_s2::gguf_summary::{human_bytes, GgufSummary};
use fish_s2::models::{
    stem_key, validate_pair, FoundFile, ModelEntry, ModelKind, ModelPair, ScannedModels,
};
use fish_s2::paths::{
    default_tokenizer_path, discover_project_root_from, file_name, join_path, models_dir,
    is_same_path, output_dir, path_not_behind, project_root, server_workdir, RootMarkers,
};
use fish_s2::s2_process::{
    build_start_options, resolve_s2_binary, ChildState, ServerProcess, ServerStatus,
};
use fish_s2::tags::{control_tags, insert_tag_at_cursor};
use fish_s2::tts::{base_url, refusal, tts_url, TtsApiError, TtsResponse};
use fish_s2::voice::{Timestamp, VoiceProfile};

// ---------------------------------------------------------------------
// Paths
// ---------------------------------------------------------------------

#[test]
fn paths_are_compared_by_their_parts() {
    let paths = [
        "", "/", "//", ".", "./", "./a", "a", "a/", "a/.", "a//b", "a/b", "a/./b", "a/../b", "..",
        "../a", "/a", "/a/b", "/./a", "a-b/c", "a.b", "a/b/c", "b", ".a", "...", "/..", "a/ b",
        "\u{e9}/b", "\u{1f600}", "z/\u{ff21}",
    ];
    for a in paths {
        for b in paths {
            let (x, y) = (std::path::Path::new(a), std::path::Path::new(b));
            assert_eq!(is_same_path(a, b), x == y, "{a:?} {b:?}");
            assert_eq!(path_not_behind(a, b), x <= y, "{a:?} {b:?}");
        }
    }
}

// ---------------------------------------------------------------------
// Settings
// ---------------------------------------------------------------------

fn config_with(id: Option<&str>) -> AppConfig {
    let mut config = AppConfig::with_root("/srv/fish");
    config.active_model_pair_id = id.map(|t| t.to_string());
    config
}

fn model_pairs() -> Vec<ModelPair> {
    vec![
        model_pair("pair-a", "a-transformer.gguf", "a-codec.gguf"),
        model_pair("pair-b", "b-transformer.gguf", "b-codec.gguf"),
    ]
}

fn model_pair(id: &str, transformer: &str, codec: &str) -> ModelPair {
    ModelPair {
        id: id.to_string(),
        label: id.to_string(),
        transformer: model_entry(transformer, ModelKind::TransformerOnly),
        codec: model_entry(codec, ModelKind::CodecOnly),
    }
}

fn model_entry(path: &str, kind: ModelKind) -> ModelEntry {
    ModelEntry {
        path: path.to_string(),
        kind,
        summary: None,
    }
}

#[test]
fn selects_first_model_pair_when_no_active_id_exists() {
    let mut config = config_with(None);
    let pairs = model_pairs();
    let selected = config.ensure_active_model_pair(&pairs).unwrap();
    assert_eq!(selected.id, "pair-a");
    assert_eq!(config.active_model_pair_id.as_deref(), Some("pair-a"));
}

#[test]
fn replaces_stale_active_model_pair_id() {
    let mut config = config_with(Some("missing-pair"));
    let pairs = model_pairs();
    let selected = config.ensure_active_model_pair(&pairs).unwrap();
    assert_eq!(selected.id, "pair-a");
    assert_eq!(config.active_model_pair_id.as_deref(), Some("pair-a"));
}

#[test]
fn keeps_existing_active_model_pair_id() {
    let mut config = config_with(Some("pair-b"));
    let pairs = model_pairs();
    let selected = config.ensure_active_model_pair(&pairs).unwrap();
    assert_eq!(selected.id, "pair-b");
    assert_eq!(config.active_model_pair_id.as_deref(), Some("pair-b"));
}

#[test]
fn no_pair_is_chosen_where_there_is_none() {
    let mut config = config_with(Some("gone"));
    assert!(config.ensure_active_model_pair(&[]).is_none());
    assert_eq!(config.active_model_pair_id.as_deref(), Some("gone"));
    assert!(config.active_model_pair(&model_pairs()).is_none());
}

#[test]
fn loaded_settings_are_completed() {
    let mut config = AppConfig::with_root("/a");
    config.models_dir = String::new();
    config.server_backend = " S2.exe ".to_string();
    config.server_max_new_tokens = 0;
    config.complete_loaded("/root");
    assert_eq!(config.models_dir, "/root/models");
    assert_eq!(config.server_backend, "rust-pure");
    assert_eq!(config.server_max_new_tokens, 32);
    assert_eq!(normalize_server_backend("  ffi "), "ffi");
    assert_eq!(AppConfig::config_path("/root"), "/root/config.json");
}

fn voice(id: u128, name: &str) -> VoiceProfile {
    VoiceProfile::with_identity(
        id,
        Timestamp {
            seconds: 0,
            nanoseconds: 0,
        },
        name.to_string(),
        "ref.wav".to_string(),
        "hello".to_string(),
    )
}

#[test]
fn removed_voice_hands_over_to_the_first_one() {
    let mut config = AppConfig::with_root("/a");
    config.add_voice(voice(1, "one"));
    config.add_voice(voice(2, "two"));
    assert_eq!(config.active_voice().unwrap().name, "two");
    config.remove_voice(2);
    assert_eq!(config.voices.len(), 1);
    assert_eq!(config.active_voice_id, Some(1));
    config.remove_voice(1);
    assert_eq!(config.active_voice_id, None);
    assert!(config.active_voice().is_none());
}

#[test]
fn new_voices_have_random_identifiers() {
    let a = VoiceProfile::new("n".into(), "w".into(), "t".into());
    let b = VoiceProfile::new("n".into(), "w".into(), "t".into());
    assert_ne!(a.id, b.id);
    assert_eq!((a.id >> 76) & 0xf, 4);
    assert_eq!((a.id >> 62) & 3, 2);
    assert!(a.created_at.seconds > 1_500_000_000);
    assert!(a.created_at.nanoseconds < 2_000_000_000);
    assert_eq!(a.notes, "");
}

// ---------------------------------------------------------------------
// Places
// ---------------------------------------------------------------------

#[test]
fn models_dir_is_under_project_root() {
    let root = project_root(None, false, Some("/srv/fish".to_string()), None);
    let models = models_dir(&root);
    assert_eq!(models, join_path(&root, "models"));
    assert!(models.ends_with("models"));
}

#[test]
fn default_tokenizer_lives_in_models() {
    let root = "/srv/fish";
    let p = default_tokenizer_path(root);
    assert_eq!(p, join_path(&models_dir(root), "tokenizer.json"));
}

fn markers(manifest: bool, models: bool, bin: bool) -> RootMarkers {
    RootMarkers {
        manifest_is_file: manifest,
        models_is_dir: models,
        models_exists: models,
        bin_is_dir: bin,
        cargo_toml_exists: false,
        crates_is_dir: false,
    }
}

#[test]
fn discovers_portable_package_root_from_bin_dir() {
    let bin = markers(false, false, false);
    let root = markers(true, true, true);
    assert_eq!(discover_project_root_from(&[bin, root]), Some(1));
    assert_eq!(discover_project_root_from(&[bin]), None);
}

#[test]
fn root_search_stops_after_six_directories() {
    let no = markers(false, false, false);
    let yes = markers(true, true, true);
    assert_eq!(discover_project_root_from(&[no, no, no, no, no, yes]), Some(5));
    assert_eq!(discover_project_root_from(&[no, no, no, no, no, no, yes]), None);
}

#[test]
fn configured_root_wins_where_it_is_a_directory() {
    let found = Some("/found".to_string());
    assert_eq!(
        project_root(Some("/set".into()), true, found.clone(), None),
        "/set"
    );
    assert_eq!(
        project_root(Some("/set".into()), false, found, None),
        "/found"
    );
    assert_eq!(project_root(None, false, None, None), ".");
    assert_eq!(output_dir("/r"), "/r/output");
    assert_eq!(server_workdir("/r"), "/r/runtime/s2_server");
    assert_eq!(file_name("/r/a.gguf"), Some("a.gguf".to_string()));
    assert_eq!(file_name("/"), None);
}

// ---------------------------------------------------------------------
// Model files
// ---------------------------------------------------------------------

fn write_string(bytes: &mut Vec<u8>, value: &str) {
    bytes.extend_from_slice(&(value.len() as u64).to_le_bytes());
    bytes.extend_from_slice(value.as_bytes());
}

fn tiny_gguf() -> Vec<u8> {
    let mut bytes = Vec::new();
    bytes.extend_from_slice(b"GGUF");
    bytes.extend_from_slice(&3_u32.to_le_bytes());
    bytes.extend_from_slice(&1_u64.to_le_bytes());
    bytes.extend_from_slice(&1_u64.to_le_bytes());
    write_string(&mut bytes, "general.architecture");
    bytes.extend_from_slice(&8_u32.to_le_bytes());
    write_string(&mut bytes, "s2-pro-test");
    write_string(&mut bytes, "blk.0.weight");
    bytes.extend_from_slice(&2_u32.to_le_bytes());
    bytes.extend_from_slice(&2_u64.to_le_bytes());
    bytes.extend_from_slice(&2_u64.to_le_bytes());
    bytes.extend_from_slice(&GgmlType::F32.to_u32().to_le_bytes());
    bytes.extend_from_slice(&0_u64.to_le_bytes());
    let aligned = align_to(bytes.len() as u64) as usize;
    bytes.resize(aligned, 0);
    for value in [1.0_f32, 2.0, 3.0, 4.0] {
        bytes.extend_from_slice(&value.to_le_bytes());
    }
    bytes
}

fn open(bytes: &[u8]) -> GgufFile {
    let size = bytes.len() as u64;
    let directory = read_directory("tiny.gguf", bytes, size).unwrap();
    let texts = directory
        .metadata
        .iter()
        .map(|(_, value)| match value {
            MetadataValue::Text(_) => String::new(),
            MetadataValue::Single(bits) => f32::from_bits(*bits).to_string(),
            MetadataValue::Double(bits) => f64::from_bits(*bits).to_string(),
        })
        .collect();
    GgufFile::from_directory("tiny.gguf".to_string(), directory, texts, size)
}

#[test]
fn rejects_non_gguf() {
    assert!(read_directory("bad.bin", b"notgguf", 7).is_err());
    let err = read_directory("bad.bin", b"nope....", 8).unwrap_err();
    assert!(err.message().contains("bad.bin"));
}

#[test]
fn reads_tensor_directory_and_bytes() {
    let file = tiny_gguf();
    let gguf = open(&file);
    assert_eq!(gguf.version, 3);
    assert_eq!(gguf.tensor_data_start % GGUF_ALIGNMENT, 0);
    assert_eq!(gguf.tensor_names(), vec!["blk.0.weight"]);

    let tensor = gguf.tensor("blk.0.weight").unwrap();
    assert_eq!(tensor.dimensions, vec![2, 2]);
    assert_eq!(tensor.ggml_type, GgmlType::F32);
    assert_eq!(tensor.relative_offset, 0);
    assert_eq!(tensor.byte_len().unwrap(), 16);

    let bytes = gguf.tensor_bytes(&file, "blk.0.weight").unwrap();
    let values = bytes
        .chunks_exact(4)
        .map(|chunk| f32::from_le_bytes(chunk.try_into().unwrap()))
        .collect::<Vec<_>>();
    assert_eq!(values, vec![1.0, 2.0, 3.0, 4.0]);

    let mapped = gguf.mapped_tensor_view("blk.0.weight").unwrap();
    assert_eq!(mapped.name, "blk.0.weight");
    assert_eq!(mapped.dimensions, vec![2, 2]);
    assert_eq!(mapped.ggml_type, GgmlType::F32);
    assert_eq!(mapped.byte_len, 16);
    assert_eq!(mapped.read_bytes(&file).unwrap(), bytes);
    assert_eq!(
        mapped.read_bytes_prefix(&file, 4).unwrap(),
        1.0_f32.to_le_bytes()
    );

    let summary = GgufSummary::inspect(open(&file));
    assert_eq!(summary.tensor_count, 1);
    assert_eq!(summary.architecture.as_deref(), Some("s2-pro-test"));
}

#[test]
fn tensors_beyond_the_end_are_refused() {
    let file = tiny_gguf();
    let cut = &file[..file.len() - 1];
    assert!(read_directory("tiny.gguf", cut, cut.len() as u64).is_err());
    assert!(open(&file).tensor_bytes(&file, "absent").is_err());
    let tensor = GgufTensorInfo {
        name: "t".to_string(),
        dimensions: vec![4],
        ggml_type: GgmlType::F16,
        relative_offset: 0,
    };
    assert!(validate_tensor_bounds(&[tensor.duplicate()], 32, 40).is_ok());
    assert!(validate_tensor_bounds(&[tensor], 32, 39).is_err());
}

#[test]
fn leading_bytes_are_enough_for_the_directory() {
    let file = tiny_gguf();
    let size = file.len() as u64;
    let whole = read_directory("tiny.gguf", &file, size).unwrap();
    for count in 0..=file.len() {
        match read_directory("tiny.gguf", &file[..count], size) {
            Ok(part) => {
                assert!(count as u64 <= size);
                assert_eq!(part.tensors.len(), whole.tensors.len());
                assert_eq!(part.metadata.len(), whole.metadata.len());
                assert_eq!(part.tensor_data_start, whole.tensor_data_start);
            }
            Err(err) => {
                assert!((count as u64) < whole.tensor_data_start);
                assert!(err.message().contains("failed to fill whole buffer"));
            }
        }
    }
    let before_values = &file[..whole.tensor_data_start as usize];
    assert!(read_directory("tiny.gguf", before_values, size).is_ok());
}

#[test]
fn names_that_are_no_text_are_refused() {
    let mut file = tiny_gguf();
    // The first letter of the first key becomes a byte that no text holds.
    file[32] = 0xff;
    let err = read_directory("tiny.gguf", &file, file.len() as u64).unwrap_err();
    assert!(err.message().contains("utf-8"), "{}", err.message());
}

#[test]
fn block_types_have_sizes_of_their_own() {
    assert_eq!(GgmlType::Q4_0.byte_len(64).unwrap(), 36);
    assert_eq!(GgmlType::F16.byte_len(3).unwrap(), 6);
    assert_eq!(GgmlType::Q4_0.byte_len(33).unwrap(), 36);
    assert!(GgmlType::F32.byte_len(u64::MAX).is_err());
    assert!(GgmlType::from_u32(99).is_err());
    assert_eq!(GgmlType::from_u32(14).unwrap(), GgmlType::Q6K);
    assert_eq!(align_to(33), 64);
    assert_eq!(align_to(64), 64);
}

#[test]
fn sizes_are_shown_for_people() {
    assert_eq!(human_bytes(512), "512 B");
    assert_eq!(human_bytes(3 * 1024 * 1024), "3.00 MB");
    assert_eq!(human_bytes(1536), "1.50 KB");
}

fn found(path: &str) -> FoundFile {
    FoundFile {
        path: path.to_string(),
        summary: None,
    }
}

#[test]
fn models_are_paired_by_their_stems() {
    let scanned = ScannedModels::from_files(vec![
        found("m/s2-pro-q8-codec-only.gguf"),
        found("m/notes.txt"),
        found("m/s2-pro-f16-transformer-only.gguf"),
        found("m/s2-pro-f16-codec-only.gguf"),
    ]);
    assert_eq!(scanned.entries.len(), 3);
    assert_eq!(scanned.entries[0].path, "m/s2-pro-f16-codec-only.gguf");
    assert_eq!(scanned.pairs.len(), 1);
    assert_eq!(
        scanned.pairs[0].codec.path,
        "m/s2-pro-f16-codec-only.gguf"
    );
    assert_eq!(stem_key("S2-Pro-F16-Codec-Only.GGUF"), "s2-pro-f16");
    assert!(validate_pair(&scanned.pairs[0], true, true).is_ok());
    assert_eq!(
        validate_pair(&scanned.pairs[0], true, false)
            .unwrap_err()
            .message(),
        "codec model missing: m/s2-pro-f16-codec-only.gguf"
    );
}

#[test]
fn kinds_are_told_by_names() {
    assert_eq!(
        ModelKind::from_filename("a_CODEC_only.gguf"),
        ModelKind::CodecOnly
    );
    assert_eq!(ModelKind::from_filename("plain.gguf"), ModelKind::Unified);
    assert_eq!(ModelKind::from_filename("plain.bin"), ModelKind::Unknown);
}

// ---------------------------------------------------------------------
// Exports, requests and processes
// ---------------------------------------------------------------------

#[test]
fn exports_name_what_they_lack() {
    let plan = ConvertPlan {
        checkpoint_dir: "ck".into(),
        codec_path: "ck/codec.pth".into(),
        output_path: "out.gguf".into(),
        out_dtype: "f16".into(),
        python_exe: "python".into(),
        script_path: "export.py".into(),
    };
    assert_eq!(
        plan.validate(false, true, true).unwrap_err().message(),
        "missing config.json in ck"
    );
    assert!(plan.validate(true, true, true).is_ok());
    assert!(plan.command_preview().starts_with("python export.py"));
    assert_eq!(plan.arguments().len(), 9);
    assert_eq!(plan.outcome(true, Some(0), "a", "b").unwrap(), "a\nb");
    assert!(plan.outcome(false, Some(3), "a", "b").is_err());
    assert_eq!(
        resolve_export_script("mine.py", false, &[false, true, true]),
        "../s2.cpp/quantize/unified_export_gguf.py"
    );
    assert_eq!(
        resolve_export_script("mine.py", false, &[false, false, false]),
        "mine.py"
    );
}

#[test]
fn refusals_give_their_reason() {
    assert_eq!(base_url(8081), "http://127.0.0.1:8081");
    assert_eq!(tts_url(8081), "http://127.0.0.1:8081/v1/tts");
    let api = TtsApiError {
        error: None,
        message: Some("busy".into()),
    };
    assert_eq!(
        refusal("503", "body".into(), Some(api)).message(),
        "TTS failed (503): busy"
    );
    assert_eq!(
        refusal("500", "body".into(), None).message(),
        "TTS failed (500): body"
    );
    let saved = TtsResponse::unsaved(vec![1, 2]).saved("x.wav".into());
    assert_eq!(saved.saved_path.as_deref(), Some("x.wav"));
}

#[test]
fn processes_are_started_once() {
    let pairs = model_pairs();
    let opts = build_start_options(
        "s2".into(),
        "work".into(),
        9000,
        &pairs[0],
        0,
        -1,
        None,
        None,
    );
    assert!(!opts.has_reference());
    let mut process = ServerProcess::new(9000);
    assert!(process.begin_start(&opts, false).is_err());
    assert!(process.begin_start(&opts, true).is_ok());
    process.mark_starting();
    process.spawned(9000, 5);
    assert!(process.is_running(ChildState::Alive));
    assert_eq!(process.uptime(9), Some(4));
    process.stop();
    assert!(matches!(process.status, ServerStatus::Stopped));
    assert_eq!(
        resolve_s2_binary("s2", true, &[false, false, false, false, false]),
        "s2"
    );
}

#[test]
fn tags_are_set_off_by_spaces() {
    assert_eq!(control_tags().len(), 16);
    let (text, cursor) = insert_tag_at_cursor("ab", 1, "[sad]");
    assert_eq!(text, "a [sad] b");
    assert_eq!(cursor, text.len());
    let (text, _) = insert_tag_at_cursor("", 0, "[sad]");
    assert_eq!(text, "[sad]");
}
