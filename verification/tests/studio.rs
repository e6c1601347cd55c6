use fish_s2::config::AppConfig;
use fish_s2::models::{FoundFile, ScannedModels};
use fish_s2::studio::{append_log_line, count_paragraphs, format_elapsed, Studio, Tab};
use fish_s2::studio_work::WavReport;
use fish_s2::wav_check::WavAnalysis;

fn scanned(names: &[&str]) -> ScannedModels {
    ScannedModels::from_files(
        names
            .iter()
            .map(|name| FoundFile {
                path: format!("m/{name}"),
                summary: None,
            })
            .collect(),
    )
}

fn studio() -> Studio {
    Studio::new(
        AppConfig::with_root("/r"),
        scanned(&["s2-transformer-only.gguf", "s2-codec-only.gguf"]),
    )
}

#[test]
fn the_studio_opens_with_a_pair() {
    let s = studio();
    assert_eq!(s.tab, Tab::Generate);
    assert!(s.config.active_model_pair_id.is_some());
    assert!(s.status_line.starts_with("找到 2 個 GGUF、1 組可用模型對"));
    let empty = Studio::new(AppConfig::with_root("/r"), ScannedModels::empty());
    assert!(empty.status_line.contains("/r/models"));
    let alone = Studio::new(AppConfig::with_root("/r"), scanned(&["x-codec-only.gguf"]));
    assert!(alone.status_line.starts_with("已找到 1 個 GGUF"));
}

#[test]
fn logs_grow_line_by_line() {
    let mut log = String::new();
    append_log_line(&mut log, "01:02:03", "a");
    append_log_line(&mut log, "01:02:04", "b");
    assert_eq!(log, "[01:02:03] a\n[01:02:04] b");
    assert_eq!(format_elapsed(0, 12, "0.01"), "12ms");
    assert_eq!(format_elapsed(2, 2500, "2.50"), "2.50s");
}

#[test]
fn blank_parts_are_not_counted() {
    assert_eq!(count_paragraphs("a\n\nb"), 2);
    assert_eq!(count_paragraphs("\n\n  \n\na\n"), 1);
    assert_eq!(count_paragraphs(""), 0);
    let mut s = studio();
    s.script = "x\n\ny".to_string();
    s.report_paragraphs();
    assert!(s.status_line.starts_with("共 2 段"));
}

#[test]
fn speaking_needs_a_text_and_its_models() {
    let mut s = studio();
    s.script = "  ".to_string();
    assert!(s.run_native_rust_tts(0, true, true, "t").is_none());
    assert_eq!(s.status_line, "請輸入要合成的文字");
    s.script = " 嗨 ".to_string();
    assert!(s.run_native_rust_tts(0, false, true, "t").is_none());
    assert_eq!(
        s.status_line,
        "transformer model missing: m/s2-transformer-only.gguf"
    );
    let job = s.run_native_rust_tts(0, true, true, "t").unwrap();
    assert_eq!(job.text, "嗨");
    assert!(!job.reuse && s.busy);
    assert!(s.synthesis_log.contains("文字：3 bytes / 1 chars"));
    s.tts_failed("oops".to_string(), "t");
    assert!(!s.busy);
    assert!(s.synthesis_log.ends_with("[t] 失敗：oops"));
    assert!(s.run_native_rust_tts(0, true, true, "t").unwrap().reuse);
}

#[test]
fn another_pair_drops_the_engine() {
    let mut s = studio();
    s.script = "hi".to_string();
    s.run_native_rust_tts(0, true, true, "t").unwrap();
    assert!(s.engine_key.is_some());
    let id = s.config.active_model_pair_id.clone().unwrap();
    s.choose_pair(id);
    assert!(s.engine_key.is_some());
    s.choose_pair("other".to_string());
    assert!(s.engine_key.is_none());
    assert!(s.ensure_active_pair());
    let found = scanned(&["y-transformer-only.gguf", "y-codec-only.gguf"]);
    assert!(s.adopt_scanned_models(found));
}

#[test]
fn the_server_must_run_to_speak_through_it() {
    let mut s = studio();
    s.script = "hi".to_string();
    assert!(s.run_server_tts("t").is_none());
    assert_eq!(s.status_line, "請先啟動 Rust 推理伺服器");
    let plan = s.start_server(0, true, true, "/r").unwrap();
    assert_eq!(plan.port, 8081);
    assert_eq!(plan.config.generate_params.max_new_tokens, 32);
    s.server_started(0, None);
    assert_eq!(s.server_badge(), "🟢 :8081");
    let job = s.run_server_tts("t").unwrap();
    assert_eq!(job.text, "hi");
    s.server_stopped();
    assert_eq!(s.server_badge(), "⚪ :8081");
    s.config.server_backend = "none".to_string();
    assert!(s.start_server(0, true, true, "/r").is_none());
    assert!(s.status_line.starts_with("unknown backend: none"));
}

#[test]
fn finished_sound_is_reported() {
    let mut s = studio();
    s.busy = true;
    let report = WavReport {
        analysis: WavAnalysis {
            sample_rate: 44_100,
            channels: 1,
            frames: 10,
            samples: 10,
            square_sum: 0,
            peak: 0,
        },
        duration: "0.000".into(),
        rms: "0.000000".into(),
        peak: "0.000000".into(),
    };
    s.tts_done(64, "o.wav".to_string(), Some(report), "t");
    assert!(!s.busy);
    assert!(s.status_line.contains("太短"));
    assert!(s.synthesis_log.contains("警告："));
    assert!(s.synthesis_log.ends_with("完成：已寫出 64 bytes 到 o.wav"));
    s.tts_done(64, "p.wav".to_string(), None, "t");
    assert_eq!(s.status_line, "已生成：p.wav");
    s.played(Some("no device".to_string()), "t");
    assert_eq!(s.status_line, "已儲存但播放失敗：no device");
}

#[test]
fn voices_need_sound_and_text() {
    let mut s = studio();
    assert!(!s.save_voice(true));
    assert_eq!(s.chosen_wav_label(), "（未選擇）");
    s.clone_ref_wav = "/v/me.wav".to_string();
    s.clone_ref_text = "hello".to_string();
    assert!(!s.save_voice(false));
    assert!(s.save_voice(true));
    assert_eq!(s.chosen_wav_label(), "me.wav");
    assert_eq!(s.config.active_voice().unwrap().name, "我的聲音");
    let job = {
        s.script = "hi".to_string();
        s.run_native_rust_tts(0, true, true, "t").unwrap()
    };
    assert_eq!(
        job.reference,
        Some(("/v/me.wav".to_string(), "hello".to_string()))
    );
}

#[test]
fn exports_are_planned_from_the_settings() {
    let mut s = studio();
    s.config.convert_checkpoint_dir = "ck".to_string();
    let plan = s.plan_convert(false, &[false, false, true]);
    assert_eq!(plan.codec_path, "ck/codec.pth");
    assert_eq!(plan.output_path, "/r/models/s2-pro-export-f16.gguf");
    assert_eq!(plan.script_path, "s2.cpp/quantize/unified_export_gguf.py");
    s.run_convert(&plan);
    assert!(s.busy && s.convert_log.contains("--out-dtype f16"));
    assert!(!s.convert_done(Err("bad".to_string())));
    assert!(s.convert_done(Ok("fine".to_string())));
    assert_eq!(s.convert_log, "fine");
}

#[test]
fn tags_go_where_the_cursor_stands() {
    let mut s = studio();
    s.script = "ab".to_string();
    s.insert_tag_at_end("[sad]");
    assert_eq!(s.script, "ab [sad]");
    s.script_cursor = 0;
    s.insert_tag("[sigh]");
    assert_eq!(s.script, "[sigh] ab [sad]");
    s.persist();
    assert_eq!(s.config.last_script, "[sigh] ab [sad]");
}

#[test]
fn another_number_of_tokens_needs_another_engine() {
    let mut s = studio();
    s.script = "new".to_string();
    s.set_max_new_tokens(7);
    assert_eq!(s.config.server_max_new_tokens, 7);
    assert_eq!(s.config.last_script, "new");
    assert!(s.engine_key.is_none());
}
