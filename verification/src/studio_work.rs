//! What the studio sets going, and what it makes of finished work.
use crate::config::{voice_with, AppConfig};
use crate::convert::{
    checkpoint_codec_path, export_output_path, preview_of, resolve_export_script, resolved,
    script_candidates, ConvertPlan,
};
use crate::engine::{backend_named, EngineBackend, EngineConfig};
use crate::error::{core_error_text, message};
use crate::generate::{GenerateParams, SEVEN_TENTHS_BITS};
use crate::models::{missing_file, validate_pair, PairView};
use crate::paths::{file_name, file_name_of, join, tokenizer_place};
use crate::studio::{
    append_log_line, count_paragraphs, filled_parts, logged, missing_model_pair_message,
    no_pair_text, same_engine, NativeRustEngineKey, Studio, EngineKeyView,
};
use crate::tags::{clamped, insert_tag_at_cursor, with_tag};
use crate::text::{dec, dec_u64, dec_usize, lower, trim, trimmed};
use crate::voice::{is_random_id, VoiceProfile};
use crate::wav_check::{wav_warning, warning_of, WavAnalysis};
use vstd::prelude::*;
use vstd::string::*;
use vstd::utf8::{encode_utf8, is_char_boundary};

verus! {

// ---------------------------------------------------------------------
// Speaking with a loaded engine
// ---------------------------------------------------------------------

/// The voice to speak after: its sound and its text.
pub open spec fn active_reference(c: AppConfig) -> Option<(Seq<char>, Seq<char>)> {
    match c.active_voice_id {
        None => None,
        Some(id) => match voice_with(c.voices@, id, 0) {
            None => None,
            Some(k) => Some((c.voices@[k].reference_wav@, c.voices@[k].reference_text@)),
        },
    }
}

/// Two texts as mathematical values.
pub open spec fn two_texts(v: Option<(String, String)>) -> Option<(Seq<char>, Seq<char>)> {
    match v {
        None => None,
        Some((a, b)) => Some((a@, b@)),
    }
}

fn voice_reference(c: &AppConfig) -> (r: Option<(String, String)>)
    ensures
        two_texts(r) == active_reference(*c),
{
    match c.active_voice() {
        None => None,
        Some(v) => Some((v.reference_wav.clone(), v.reference_text.clone())),
    }
}

/// What an engine is to speak.
#[derive(Debug)]
pub struct NativeJob {
    pub text: String,
    pub output_dir: String,
    pub transformer: String,
    pub codec: String,
    pub workdir: String,
    pub max_new_tokens: u32,
    pub reference: Option<(String, String)>,
    /// Whether the engine that is loaded can be used.
    pub reuse: bool,
}

/// How long a text is, in bytes and in characters.
pub open spec fn length_text(text: Seq<char>) -> Seq<char> {
    "文字："@ + dec(encode_utf8(text).len()) + " bytes / "@ + dec(text.len()) + " chars"@
}

fn show_length(text: &String) -> (r: String)
    ensures
        r@ == length_text(text@),
{
    let bytes = dec_usize(text.as_str().as_bytes().len());
    let chars = dec_usize(text.as_str().unicode_len());
    String::from_str("文字：").concat(bytes.as_str()).concat(" bytes / ").concat(
        chars.as_str(),
    ).concat(" chars")
}

/// The log of speaking with a loaded engine, as it starts.
pub open spec fn native_log(
    clock: Seq<char>,
    pair: PairView,
    text: Seq<char>,
    max_new_tokens: u32,
) -> Seq<char> {
    let a = logged(Seq::empty(), clock, "開始：原生 Rust 直接生成"@);
    let b = logged(a, clock, "模型："@ + pair.label);
    let c = logged(b, clock, "Transformer："@ + pair.transformer.path);
    let d = logged(c, clock, "Codec："@ + pair.codec.path);
    let e = logged(d, clock, length_text(text));
    logged(e, clock, "max_new_tokens："@ + dec(max_new_tokens as nat))
}

/// What keeps a text from being spoken by a loaded engine, if anything.
pub open spec fn native_refusal(
    pair: PairView,
    transformer_exists: bool,
    codec_exists: bool,
    script: Seq<char>,
) -> Option<Seq<char>> {
    match missing_file(pair, transformer_exists, codec_exists) {
        Some(e) => Some(core_error_text(e)),
        None => if trimmed(script).len() == 0 {
            Some("請輸入要合成的文字"@)
        } else {
            None
        },
    }
}

/// The key of the engine for a pair.
pub open spec fn engine_key_of(pair: PairView, c: AppConfig) -> EngineKeyView {
    EngineKeyView {
        transformer: pair.transformer.path,
        codec: pair.codec.path,
        workdir: c.server_workdir@,
        max_new_tokens: c.server_max_new_tokens,
    }
}

impl Studio {
    /// Says that no pair of models can be used.
    pub fn report_missing_pair(&mut self)
        ensures
            final(self).status_line@ == no_pair_text(
                old(self).config.models_dir@,
                old(self).scanned.entries@.len(),
            ),
            *final(self) == (Studio { status_line: final(self).status_line, ..*old(self) }),
    {
        let line = missing_model_pair_message(self.config.models_dir.as_str(), &self.scanned);
        self.status_line = line;
    }

    /// Sets going what speaks the script with a loaded engine, and the pair at position `k`.
    pub fn run_native_rust_tts(
        &mut self,
        k: usize,
        transformer_exists: bool,
        codec_exists: bool,
        clock: &str,
    ) -> (r: Option<NativeJob>)
        requires
            k < old(self).scanned.pairs@.len(),
        ensures
            ({
                let pair = old(self).scanned.pairs@[k as int]@;
                let text = trimmed(old(self).script@);
                let key = engine_key_of(pair, old(self).config);
                match native_refusal(pair, transformer_exists, codec_exists, old(self).script@) {
                    Some(line) => {
                        &&& r is None
                        &&& final(self).status_line@ == line
                        &&& *final(self) == (Studio {
                            status_line: final(self).status_line,
                            ..*old(self)
                        })
                    },
                    None => {
                        &&& r matches Some(job) && {
                            &&& job.text@ == text
                            &&& job.output_dir@ == old(self).config.output_dir@
                            &&& job.transformer@ == pair.transformer.path
                            &&& job.codec@ == pair.codec.path
                            &&& job.workdir@ == old(self).config.server_workdir@
                            &&& job.max_new_tokens == old(self).config.server_max_new_tokens
                            &&& two_texts(job.reference) == active_reference(old(self).config)
                            &&& job.reuse == (old(self).engine_key matches Some(had)
                                && same_engine(had@, key))
                        }
                        &&& final(self).busy
                        &&& final(self).engine_key matches Some(now) && (match old(
                            self,
                        ).engine_key {
                            Some(had) if same_engine(had@, key) => now == had,
                            _ => now@ == key,
                        })
                        &&& final(self).status_line@ == "正在準備原生 Rust 引擎…"@
                        &&& final(self).synthesis_log@ == native_log(
                            clock@,
                            pair,
                            text,
                            old(self).config.server_max_new_tokens,
                        )
                        &&& *final(self) == (Studio {
                            busy: true,
                            engine_key: final(self).engine_key,
                            status_line: final(self).status_line,
                            synthesis_log: final(self).synthesis_log,
                            ..*old(self)
                        })
                    },
                }
            }),
    {
        let label = self.scanned.pairs[k].label.clone();
        let transformer = self.scanned.pairs[k].transformer.path.clone();
        let codec = self.scanned.pairs[k].codec.path.clone();
        match validate_pair(&self.scanned.pairs[k], transformer_exists, codec_exists) {
            Err(e) => {
                self.status_line = e.message();
                return None;
            },
            Ok(_) => {},
        }
        let text = trim(self.script.as_str());
        if text.as_str().is_empty() {
            self.status_line = String::from_str("請輸入要合成的文字");
            return None;
        }
        let reference = voice_reference(&self.config);
        let mut log = String::new();
        append_log_line(&mut log, clock, "開始：原生 Rust 直接生成");
        let line = String::from_str("模型：").concat(label.as_str());
        append_log_line(&mut log, clock, line.as_str());
        let line = String::from_str("Transformer：").concat(transformer.as_str());
        append_log_line(&mut log, clock, line.as_str());
        let line = String::from_str("Codec：").concat(codec.as_str());
        append_log_line(&mut log, clock, line.as_str());
        let line = show_length(&text);
        append_log_line(&mut log, clock, line.as_str());
        let tokens = dec_u64(self.config.server_max_new_tokens as u64);
        let line = String::from_str("max_new_tokens：").concat(tokens.as_str());
        append_log_line(&mut log, clock, line.as_str());
        let key = NativeRustEngineKey {
            transformer: transformer.clone(),
            codec: codec.clone(),
            workdir: self.config.server_workdir.clone(),
            max_new_tokens: self.config.server_max_new_tokens,
        };
        let reuse: bool = match &self.engine_key {
            Some(had) => had.same_as(&key),
            None => false,
        };
        self.busy = true;
        self.synthesis_log = log;
        self.status_line = String::from_str("正在準備原生 Rust 引擎…");
        if !reuse {
            self.engine_key = Some(key);
        }
        Some(
            NativeJob {
                text,
                output_dir: self.config.output_dir.clone(),
                transformer,
                codec,
                workdir: self.config.server_workdir.clone(),
                max_new_tokens: self.config.server_max_new_tokens,
                reference,
                reuse,
            },
        )
    }
}

// ---------------------------------------------------------------------
// Speaking through the server
// ---------------------------------------------------------------------

/// What the server is to speak.
#[derive(Debug)]
pub struct ServerJob {
    pub text: String,
    pub port: u16,
    pub output_dir: String,
}

/// The log of speaking through the server, as it starts.
pub open spec fn server_tts_log(clock: Seq<char>, port: u16, text: Seq<char>) -> Seq<char> {
    let a = logged(Seq::empty(), clock, "開始：HTTP server /v1/tts 生成"@);
    let b = logged(
        a,
        clock,
        "Endpoint：http://127.0.0.1:"@ + dec(port as nat) + "/v1/tts"@,
    );
    logged(b, clock, length_text(text))
}

/// What keeps a text from being spoken through the server, if anything.
pub open spec fn server_refusal(running: bool, script: Seq<char>) -> Option<Seq<char>> {
    if !running {
        Some("請先啟動 Rust 推理伺服器"@)
    } else if trimmed(script).len() == 0 {
        Some("請輸入要合成的文字"@)
    } else {
        None
    }
}

impl Studio {
    /// Sets going what speaks the script through the server.
    pub fn run_server_tts(&mut self, clock: &str) -> (r: Option<ServerJob>)
        ensures
            match server_refusal(old(self).server_running, old(self).script@) {
                Some(line) => {
                    &&& r is None
                    &&& final(self).status_line@ == line
                    &&& *final(self) == (Studio {
                        status_line: final(self).status_line,
                        ..*old(self)
                    })
                },
                None => {
                    &&& r matches Some(job) && job.text@ == trimmed(old(self).script@) && job.port
                        == old(self).config.server_port && job.output_dir@ == old(
                        self,
                    ).config.output_dir@
                    &&& final(self).status_line@ == "正在合成語音…"@
                    &&& final(self).synthesis_log@ == server_tts_log(
                        clock@,
                        old(self).config.server_port,
                        trimmed(old(self).script@),
                    )
                    &&& *final(self) == (Studio {
                        busy: true,
                        status_line: final(self).status_line,
                        synthesis_log: final(self).synthesis_log,
                        ..*old(self)
                    })
                },
            },
    {
        if !self.server_running {
            self.status_line = String::from_str("請先啟動 Rust 推理伺服器");
            return None;
        }
        let text = trim(self.script.as_str());
        if text.as_str().is_empty() {
            self.status_line = String::from_str("請輸入要合成的文字");
            return None;
        }
        let mut log = String::new();
        append_log_line(&mut log, clock, "開始：HTTP server /v1/tts 生成");
        let port = dec_u64(self.config.server_port as u64);
        let line = String::from_str("Endpoint：http://127.0.0.1:").concat(port.as_str()).concat(
            "/v1/tts",
        );
        append_log_line(&mut log, clock, line.as_str());
        let line = show_length(&text);
        append_log_line(&mut log, clock, line.as_str());
        self.busy = true;
        self.synthesis_log = log;
        self.status_line = String::from_str("正在合成語音…");
        Some(
            ServerJob {
                text,
                port: self.config.server_port,
                output_dir: self.config.output_dir.clone(),
            },
        )
    }
}

// ---------------------------------------------------------------------
// The server
// ---------------------------------------------------------------------

/// What a server is started with.
#[derive(Debug)]
pub struct ServerPlan {
    pub config: EngineConfig,
    pub reference: Option<(String, String)>,
    pub port: u16,
}

/// What keeps a server from being started, if anything.
pub open spec fn server_start_refusal(
    pair: PairView,
    transformer_exists: bool,
    codec_exists: bool,
    backend: Seq<char>,
) -> Option<Seq<char>> {
    match missing_file(pair, transformer_exists, codec_exists) {
        Some(e) => Some(core_error_text(e)),
        None => if backend_named(backend) is None {
            Some(
                "unknown backend: "@ + lower(backend) + " (expected "@
                    + "rust-pure, ffi, or ffi-cuda"@ + ")"@,
            )
        } else {
            None
        },
    }
}

impl Studio {
    /// What a server for the pair at position `k` is started with.
    pub fn start_server(
        &mut self,
        k: usize,
        transformer_exists: bool,
        codec_exists: bool,
        root: &str,
    ) -> (r: Option<ServerPlan>)
        requires
            k < old(self).scanned.pairs@.len(),
        ensures
            ({
                let pair = old(self).scanned.pairs@[k as int]@;
                let c = old(self).config;
                match server_start_refusal(
                    pair,
                    transformer_exists,
                    codec_exists,
                    c.server_backend@,
                ) {
                    Some(line) => {
                        &&& r is None
                        &&& final(self).status_line@ == line
                        &&& *final(self) == (Studio {
                            status_line: final(self).status_line,
                            ..*old(self)
                        })
                    },
                    None => {
                        &&& r matches Some(plan) && {
                            &&& plan.config.transformer_gguf@ == pair.transformer.path
                            &&& plan.config.codec_gguf@ == pair.codec.path
                            &&& plan.config.tokenizer_path@ == tokenizer_place(root@)
                            &&& plan.config.workdir@ == c.server_workdir@
                            &&& Some(plan.config.backend) == backend_named(c.server_backend@)
                            &&& plan.config.generate_params == (GenerateParams {
                                max_new_tokens: c.server_max_new_tokens,
                                temperature: SEVEN_TENTHS_BITS,
                                top_p: SEVEN_TENTHS_BITS,
                                top_k: 30,
                                min_tokens_before_end: 64,
                            })
                            &&& plan.config.seed == 0
                            &&& plan.config.vulkan_device == c.vulkan_device
                            &&& plan.config.codec_vulkan_device == c.codec_vulkan_device
                            &&& plan.config.cuda_device == 0
                            &&& !plan.config.codec_cuda
                            &&& two_texts(plan.reference) == active_reference(c)
                            &&& plan.port == c.server_port
                        }
                        &&& *final(self) == *old(self)
                    },
                }
            }),
    {
        match validate_pair(&self.scanned.pairs[k], transformer_exists, codec_exists) {
            Err(e) => {
                self.status_line = e.message();
                return None;
            },
            Ok(_) => {},
        }
        let transformer = self.scanned.pairs[k].transformer.path.clone();
        let codec = self.scanned.pairs[k].codec.path.clone();
        let mut config = match EngineConfig::new(
            transformer,
            codec,
            transformer_exists,
            codec_exists,
            root,
        ) {
            Err(e) => {
                assert(false);
                self.status_line = e.message();
                return None;
            },
            Ok(c) => c,
        };
        config.workdir = self.config.server_workdir.clone();
        match EngineBackend::parse(self.config.server_backend.as_str()) {
            Err(e) => {
                self.status_line = e.message();
                return None;
            },
            Ok(b) => {
                config.backend = b;
            },
        }
        config.generate_params.max_new_tokens = self.config.server_max_new_tokens;
        config.vulkan_device = self.config.vulkan_device;
        config.codec_vulkan_device = self.config.codec_vulkan_device;
        Some(
            ServerPlan {
                config,
                reference: voice_reference(&self.config),
                port: self.config.server_port,
            },
        )
    }

    /// Takes notice of a server that was started with the pair at position `k`, or could not be.
    pub fn server_started(&mut self, k: usize, problem: Option<String>)
        requires
            k < old(self).scanned.pairs@.len(),
        ensures
            match problem {
                None => {
                    let pair = old(self).scanned.pairs@[k as int]@;
                    &&& final(self).server_running
                    &&& final(self).server_log@ == "Rust 推理引擎：http://127.0.0.1:"@ + dec(
                        old(self).config.server_port as nat,
                    ) + "\nTransformer: "@ + pair.transformer.path + "\nCodec: "@ + pair.codec.path
                    &&& final(self).status_line@
                        == "Rust 伺服器已啟動（首次載入 GGUF 可能需要數秒）"@
                },
                Some(e) => {
                    &&& final(self).server_running == old(self).server_running
                    &&& final(self).server_log@ == e@
                    &&& final(self).status_line@ == e@
                },
            },
            *final(self) == (Studio {
                server_running: final(self).server_running,
                server_log: final(self).server_log,
                status_line: final(self).status_line,
                ..*old(self)
            }),
    {
        match problem {
            None => {
                let port = dec_u64(self.config.server_port as u64);
                let log = String::from_str("Rust 推理引擎：http://127.0.0.1:").concat(
                    port.as_str(),
                ).concat("\nTransformer: ").concat(
                    self.scanned.pairs[k].transformer.path.as_str(),
                ).concat("\nCodec: ").concat(self.scanned.pairs[k].codec.path.as_str());
                self.server_running = true;
                self.server_log = log;
                self.status_line = String::from_str(
                    "Rust 伺服器已啟動（首次載入 GGUF 可能需要數秒）",
                );
            },
            Some(e) => {
                self.server_log = e.clone();
                self.status_line = e;
            },
        }
    }

    /// Takes notice of a server that was stopped.
    pub fn server_stopped(&mut self)
        ensures
            final(self).status_line@ == "伺服器已停止"@,
            *final(self) == (Studio {
                server_running: false,
                status_line: final(self).status_line,
                ..*old(self)
            }),
    {
        self.server_running = false;
        self.status_line = String::from_str("伺服器已停止");
    }

    /// Says whether the server could be reached.
    pub fn report_health(&mut self, reached: bool)
        ensures
            final(self).status_line@ == (if reached {
                "HTTP 端點可連線"@
            } else {
                "無法連線（伺服器可能仍在載入模型）"@
            }),
            *final(self) == (Studio { status_line: final(self).status_line, ..*old(self) }),
    {
        self.status_line = if reached {
            String::from_str("HTTP 端點可連線")
        } else {
            String::from_str("無法連線（伺服器可能仍在載入模型）")
        };
    }
}

// ---------------------------------------------------------------------
// Finished work
// ---------------------------------------------------------------------

/// What was measured of a sound, with the texts that show it.
#[derive(Debug)]
pub struct WavReport {
    pub analysis: WavAnalysis,
    pub duration: String,
    pub rms: String,
    pub peak: String,
}

/// The line that shows what was measured of a sound.
pub open spec fn report_text(r: WavReport) -> Seq<char> {
    "WAV 診斷："@ + dec(r.analysis.sample_rate as nat) + " Hz / "@ + dec(
        r.analysis.channels as nat,
    ) + "ch / "@ + r.duration@ + "s / RMS "@ + r.rms@ + " / peak "@ + r.peak@
}

/// The warning about a sound, if there is one.
pub open spec fn report_warning(r: WavReport, max_new_tokens: u32) -> Option<Seq<char>> {
    warning_of(r.analysis, max_new_tokens, r.duration@, r.rms@, r.peak@)
}

/// The log after a sound is finished.
pub open spec fn done_log(
    log: Seq<char>,
    clock: Seq<char>,
    report: Option<WavReport>,
    max_new_tokens: u32,
    size: nat,
    path: Seq<char>,
) -> Seq<char> {
    let told = match report {
        Some(r) => {
            let shown = logged(log, clock, report_text(r));
            match report_warning(r, max_new_tokens) {
                Some(w) => logged(shown, clock, "警告："@ + w),
                None => shown,
            }
        },
        None => logged(log, clock, "WAV 診斷：無法解析 PCM16 WAV header"@),
    };
    logged(told, clock, "完成：已寫出 "@ + dec(size) + " bytes 到 "@ + path)
}

impl Studio {
    /// Takes notice of a sound that is finished.
    pub fn tts_done(&mut self, size: usize, path: String, report: Option<WavReport>, clock: &str)
        ensures
            final(self).last_wav_path matches Some(p) && p@ == path@,
            final(self).status_line@ == (match report {
                Some(r) => match report_warning(r, old(self).config.server_max_new_tokens) {
                    Some(w) => w,
                    None => "已生成："@ + path@,
                },
                None => "已生成："@ + path@,
            }),
            final(self).synthesis_log@ == done_log(
                old(self).synthesis_log@,
                clock@,
                report,
                old(self).config.server_max_new_tokens,
                size as nat,
                path@,
            ),
            *final(self) == (Studio {
                busy: false,
                last_wav_path: final(self).last_wav_path,
                status_line: final(self).status_line,
                synthesis_log: final(self).synthesis_log,
                ..*old(self)
            }),
    {
        let ghost before = self.synthesis_log@;
        let mut log = self.synthesis_log.clone();
        let mut status = String::from_str("已生成：").concat(path.as_str());
        match &report {
            Some(r) => {
                let rate = dec_u64(r.analysis.sample_rate as u64);
                let channels = dec_u64(r.analysis.channels as u64);
                let line = String::from_str("WAV 診斷：").concat(rate.as_str()).concat(
                    " Hz / ",
                ).concat(channels.as_str()).concat("ch / ").concat(r.duration.as_str()).concat(
                    "s / RMS ",
                ).concat(r.rms.as_str()).concat(" / peak ").concat(r.peak.as_str());
                append_log_line(&mut log, clock, line.as_str());
                match wav_warning(
                    &r.analysis,
                    self.config.server_max_new_tokens,
                    r.duration.as_str(),
                    r.rms.as_str(),
                    r.peak.as_str(),
                ) {
                    Some(w) => {
                        let line = String::from_str("警告：").concat(w.as_str());
                        append_log_line(&mut log, clock, line.as_str());
                        status = w;
                    },
                    None => {},
                }
            },
            None => {
                append_log_line(&mut log, clock, "WAV 診斷：無法解析 PCM16 WAV header");
            },
        }
        let count = dec_usize(size);
        let line = String::from_str("完成：已寫出 ").concat(count.as_str()).concat(
            " bytes 到 ",
        ).concat(path.as_str());
        append_log_line(&mut log, clock, line.as_str());
        self.busy = false;
        self.synthesis_log = log;
        self.status_line = status;
        self.last_wav_path = Some(path);
    }

    /// Takes notice of a sound that was sent to the speakers, or could not be.
    pub fn played(&mut self, problem: Option<String>, clock: &str)
        ensures
            match problem {
                None => {
                    &&& final(self).status_line == old(self).status_line
                    &&& final(self).synthesis_log@ == logged(
                        old(self).synthesis_log@,
                        clock@,
                        "播放：已送出 WAV 到音訊裝置"@,
                    )
                },
                Some(e) => {
                    &&& final(self).status_line@ == "已儲存但播放失敗："@ + e@
                    &&& final(self).synthesis_log@ == logged(
                        old(self).synthesis_log@,
                        clock@,
                        "播放失敗："@ + e@,
                    )
                },
            },
            *final(self) == (Studio {
                status_line: final(self).status_line,
                synthesis_log: final(self).synthesis_log,
                ..*old(self)
            }),
    {
        match problem {
            None => {
                append_log_line(&mut self.synthesis_log, clock, "播放：已送出 WAV 到音訊裝置");
            },
            Some(e) => {
                let line = String::from_str("播放失敗：").concat(e.as_str());
                append_log_line(&mut self.synthesis_log, clock, line.as_str());
                self.status_line = String::from_str("已儲存但播放失敗：").concat(e.as_str());
            },
        }
    }

    /// Takes notice of a sound that could not be made.
    pub fn tts_failed(&mut self, problem: String, clock: &str)
        ensures
            final(self).status_line@ == problem@,
            final(self).synthesis_log@ == logged(
                old(self).synthesis_log@,
                clock@,
                "失敗："@ + problem@,
            ),
            *final(self) == (Studio {
                busy: false,
                status_line: final(self).status_line,
                synthesis_log: final(self).synthesis_log,
                ..*old(self)
            }),
    {
        let line = String::from_str("失敗：").concat(problem.as_str());
        append_log_line(&mut self.synthesis_log, clock, line.as_str());
        self.busy = false;
        self.status_line = problem;
    }

    /// Takes notice of a line about the work that goes on.
    pub fn log_synthesis(&mut self, line: &str, clock: &str)
        ensures
            final(self).synthesis_log@ == logged(old(self).synthesis_log@, clock@, line@),
            *final(self) == (Studio { synthesis_log: final(self).synthesis_log, ..*old(self) }),
    {
        append_log_line(&mut self.synthesis_log, clock, line);
    }

    /// Takes notice of an export that is finished, or failed. Gives whether models are to be looked
    /// for again.
    pub fn convert_done(&mut self, result: Result<String, String>) -> (r: bool)
        ensures
            r == result is Ok,
            match result {
                Ok(log) => final(self).convert_log@ == log@ && final(self).status_line@
                    == "GGUF 轉換完成。正在重新掃描模型…"@,
                Err(e) => final(self).convert_log@ == e@ && final(self).status_line@ == e@,
            },
            *final(self) == (Studio {
                busy: false,
                convert_log: final(self).convert_log,
                status_line: final(self).status_line,
                ..*old(self)
            }),
    {
        self.busy = false;
        match result {
            Ok(log) => {
                self.convert_log = log;
                self.status_line = String::from_str("GGUF 轉換完成。正在重新掃描模型…");
                true
            },
            Err(e) => {
                self.convert_log = e.clone();
                self.status_line = e;
                false
            },
        }
    }

    /// The export that the settings describe.
    pub fn plan_convert(&self, script_exists: bool, found: &[bool]) -> (r: ConvertPlan)
        requires
            found@.len() == 3,
        ensures
            r.checkpoint_dir@ == self.config.convert_checkpoint_dir@,
            r.codec_path@ == join(self.config.convert_checkpoint_dir@, "codec.pth"@),
            r.output_path@ == join(
                self.config.models_dir@,
                "s2-pro-export-"@ + self.convert_dtype@ + ".gguf"@,
            ),
            r.out_dtype@ == self.convert_dtype@,
            r.python_exe@ == self.config.python_exe@,
            r.script_path@ == resolved(
                self.config.convert_script@,
                script_exists,
                script_candidates(),
                found@,
            ),
    {
        ConvertPlan {
            checkpoint_dir: self.config.convert_checkpoint_dir.clone(),
            codec_path: checkpoint_codec_path(self.config.convert_checkpoint_dir.as_str()),
            output_path: export_output_path(
                self.config.models_dir.as_str(),
                self.convert_dtype.as_str(),
            ),
            out_dtype: self.convert_dtype.clone(),
            python_exe: self.config.python_exe.clone(),
            script_path: resolve_export_script(
                self.config.convert_script.as_str(),
                script_exists,
                found,
            ),
        }
    }

    /// Sets an export going.
    pub fn run_convert(&mut self, plan: &ConvertPlan)
        ensures
            final(self).convert_log@ == preview_of(*plan),
            final(self).status_line@ == "正在轉換為 GGUF（可能需要數十分鐘）…"@,
            *final(self) == (Studio {
                busy: true,
                convert_log: final(self).convert_log,
                status_line: final(self).status_line,
                ..*old(self)
            }),
    {
        self.busy = true;
        self.convert_log = plan.command_preview();
        self.status_line = String::from_str("正在轉換為 GGUF（可能需要數十分鐘）…");
    }
}

// ---------------------------------------------------------------------
// The script and the voices
// ---------------------------------------------------------------------

impl Studio {
    /// Inserts a tag at the end of the script.
    pub fn insert_tag_at_end(&mut self, token: &str)
        ensures
            final(self).script@ == with_tag(
                old(self).script@,
                encode_utf8(old(self).script@).len(),
                token@,
            ),
            final(self).script_cursor == encode_utf8(final(self).script@).len(),
            *final(self) == (Studio {
                script: final(self).script,
                script_cursor: final(self).script_cursor,
                ..*old(self)
            }),
    {
        let len: usize = self.script.as_str().as_bytes().len();
        proof {
            vstd::utf8::encode_utf8_valid_utf8(self.script@);
            vstd::utf8::is_char_boundary_start_end_of_seq(encode_utf8(self.script@));
        }
        let (text, cursor) = insert_tag_at_cursor(self.script.as_str(), len, token);
        self.script = text;
        self.script_cursor = cursor;
    }

    /// Inserts a tag where the cursor stands.
    pub fn insert_tag(&mut self, token: &str)
        requires
            is_char_boundary(
                encode_utf8(old(self).script@),
                clamped(old(self).script@, old(self).script_cursor as nat) as int,
            ),
        ensures
            final(self).script@ == with_tag(
                old(self).script@,
                old(self).script_cursor as nat,
                token@,
            ),
            final(self).script_cursor == encode_utf8(final(self).script@).len(),
            *final(self) == (Studio {
                script: final(self).script,
                script_cursor: final(self).script_cursor,
                ..*old(self)
            }),
    {
        let (text, cursor) = insert_tag_at_cursor(
            self.script.as_str(),
            self.script_cursor,
            token,
        );
        self.script = text;
        self.script_cursor = cursor;
    }

    /// Says how many parts the script has.
    pub fn report_paragraphs(&mut self)
        ensures
            final(self).status_line@ == "共 "@ + dec(filled_parts(old(self).script@, Seq::empty()))
                + " 段（合成時請逐段生成或合併腳本）"@,
            *final(self) == (Studio { status_line: final(self).status_line, ..*old(self) }),
    {
        let count = dec_usize(count_paragraphs(self.script.as_str()));
        self.status_line = String::from_str("共 ").concat(count.as_str()).concat(
            " 段（合成時請逐段生成或合併腳本）",
        );
    }

    /// Whether a voice can be saved: its sound exists and its text is not blank.
    pub open spec fn has_voice_parts(&self, wav_exists: bool) -> bool {
        wav_exists && trimmed(self.clone_ref_text@).len() > 0
    }

    /// Saves the voice that was entered and speaks after it from now on. Gives whether there was
    /// one.
    pub fn save_voice(&mut self, wav_exists: bool) -> (r: bool)
        ensures
            r == old(self).has_voice_parts(wav_exists),
            r ==> {
                &&& final(self).config.voices@.len() == old(self).config.voices@.len() + 1
                &&& final(self).config.voices@.drop_last() == old(self).config.voices@
                &&& final(self).config.voices@.last().name@ == old(self).clone_name@
                &&& final(self).config.voices@.last().reference_wav@ == old(self).clone_ref_wav@
                &&& final(self).config.voices@.last().reference_text@ == old(self).clone_ref_text@
                &&& is_random_id(final(self).config.voices@.last().id)
                &&& final(self).config.voices@.last().created_at.nanoseconds < 2_000_000_000
                &&& final(self).config.voices@.last().notes@.len() == 0
                &&& final(self).config.active_voice_id == Some(
                    final(self).config.voices@.last().id,
                )
                &&& final(self).config.last_script@ == old(self).script@
                &&& final(self).status_line@ == "已儲存聲音設定。重新啟動伺服器以套用克隆。"@
            },
            !r ==> final(self).config == old(self).config && final(self).status_line@
                == "請提供有效的 WAV 與參考文本"@,
            *final(self) == (Studio {
                config: AppConfig {
                    voices: final(self).config.voices,
                    active_voice_id: final(self).config.active_voice_id,
                    last_script: final(self).config.last_script,
                    ..old(self).config
                },
                status_line: final(self).status_line,
                ..*old(self)
            }),
    {
        let spoken = trim(self.clone_ref_text.as_str());
        if !wav_exists || spoken.as_str().is_empty() {
            self.status_line = String::from_str("請提供有效的 WAV 與參考文本");
            return false;
        }
        let profile = VoiceProfile::new(
            self.clone_name.clone(),
            self.clone_ref_wav.clone(),
            self.clone_ref_text.clone(),
        );
        self.config.add_voice(profile);
        self.persist();
        assert(self.config.voices@.drop_last() =~= old(self).config.voices@);
        self.status_line = String::from_str("已儲存聲音設定。重新啟動伺服器以套用克隆。");
        true
    }

    /// What is shown of the sound that was chosen for a voice.
    pub fn chosen_wav_label(&self) -> (r: String)
        ensures
            r@ == (match file_name_of(self.clone_ref_wav@) {
                Some(n) => n,
                None => "（未選擇）"@,
            }),
    {
        match file_name(self.clone_ref_wav.as_str()) {
            Some(n) => n,
            None => String::from_str("（未選擇）"),
        }
    }

    /// What shows whether the server runs.
    pub fn server_badge(&self) -> (r: String)
        ensures
            r@ == (if self.server_running {
                "🟢"@
            } else {
                "⚪"@
            }) + " :"@ + dec(self.config.server_port as nat),
    {
        let port = dec_u64(self.config.server_port as u64);
        let dot = if self.server_running {
            "🟢"
        } else {
            "⚪"
        };
        String::from_str(dot).concat(" :").concat(port.as_str())
    }
}

} // verus!
