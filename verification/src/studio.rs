//! What the studio shows and does: its state, and how it answers clicks and finished work.
use crate::config::{chosen_pair, AppConfig};
use crate::gguf_summary::optional_text;
use crate::models::{ModelPair, ScannedModels};
use crate::paths::{is_same_path, same_path};
use crate::text::{dec, dec_u64, dec_usize, str_eq, to_chars, trim, trimmed};
use vstd::prelude::*;
use vstd::string::*;

verus! {

// ---------------------------------------------------------------------
// Texts
// ---------------------------------------------------------------------

/// A log with one more line, which starts with the time of day.
pub open spec fn logged(log: Seq<char>, clock: Seq<char>, line: Seq<char>) -> Seq<char> {
    (if log.len() == 0 {
        log
    } else {
        log + "\n"@
    }) + ("["@ + clock + "] "@ + line)
}

/// Adds a line to a log.
pub fn append_log_line(log: &mut String, clock: &str, line: &str)
    ensures
        final(log)@ == logged(old(log)@, clock@, line@),
{
    let stamped = timestamped_log_line(clock, line);
    let before = if log.as_str().is_empty() {
        log.clone()
    } else {
        log.clone().concat("\n")
    };
    *log = before.concat(stamped.as_str());
}

/// A line that starts with the time of day.
pub fn timestamped_log_line(clock: &str, line: &str) -> (r: String)
    ensures
        r@ == "["@ + clock@ + "] "@ + line@,
{
    String::from_str("[").concat(clock).concat("] ").concat(line)
}

/// How long something took: in seconds from one second on, and in thousandths below.
pub fn format_elapsed(seconds: u64, millis: u64, seconds_text: &str) -> (r: String)
    ensures
        r@ == (if seconds >= 1 {
            seconds_text@ + "s"@
        } else {
            dec(millis as nat) + "ms"@
        }),
{
    if seconds >= 1 {
        String::from_str(seconds_text).concat("s")
    } else {
        dec_u64(millis).concat("ms")
    }
}

/// What is said where no pair of models can be used.
pub open spec fn no_pair_text(models_dir: Seq<char>, entries: nat) -> Seq<char> {
    if entries == 0 {
        "找不到 GGUF 模型。請將 transformer-only + codec-only GGUF 放入 "@ + models_dir
            + "，或執行 scripts\\download_models.ps1 -IncludeGguf -Quant f16。"@
    } else {
        "已找到 "@ + dec(entries)
            + " 個 GGUF，但沒有可用的 transformer + codec 配對。請確認檔名包含 transformer-only 與 codec-only，或重新下載 s2-pro GGUF pair。"@
    }
}

/// What is said where no pair of models can be used.
pub fn missing_model_pair_message(models_dir: &str, scanned: &ScannedModels) -> (r: String)
    ensures
        r@ == no_pair_text(models_dir@, scanned.entries@.len()),
{
    if scanned.entries.len() == 0 {
        return String::from_str(
            "找不到 GGUF 模型。請將 transformer-only + codec-only GGUF 放入 ",
        ).concat(models_dir).concat(
            "，或執行 scripts\\download_models.ps1 -IncludeGguf -Quant f16。",
        );
    }
    let count = dec_usize(scanned.entries.len());
    String::from_str("已找到 ").concat(count.as_str()).concat(
        " 個 GGUF，但沒有可用的 transformer + codec 配對。請確認檔名包含 transformer-only 與 codec-only，或重新下載 s2-pro GGUF pair。",
    )
}

/// What is said after looking for models.
pub open spec fn scan_text(
    models_dir: Seq<char>,
    entries: nat,
    pairs: nat,
    label: Option<Seq<char>>,
) -> Seq<char> {
    match label {
        Some(l) => "找到 "@ + dec(entries) + " 個 GGUF、"@ + dec(pairs)
            + " 組可用模型對；已自動選用："@ + l,
        None => no_pair_text(models_dir, entries),
    }
}

/// What is said after looking for models.
pub fn model_scan_status(models_dir: &str, scanned: &ScannedModels, label: Option<&str>) -> (r:
    String)
    ensures
        r@ == scan_text(
            models_dir@,
            scanned.entries@.len(),
            scanned.pairs@.len(),
            match label {
                Some(l) => Some(l@),
                None => None,
            },
        ),
{
    match label {
        Some(l) => {
            let entries = dec_usize(scanned.entries.len());
            let pairs = dec_usize(scanned.pairs.len());
            String::from_str("找到 ").concat(entries.as_str()).concat(" 個 GGUF、").concat(
                pairs.as_str(),
            ).concat(" 組可用模型對；已自動選用：").concat(l)
        },
        None => missing_model_pair_message(models_dir, scanned),
    }
}

/// How many parts of a script are not blank, where an empty line ends a part; `part` is what came
/// before since the last one.
pub open spec fn filled_parts(s: Seq<char>, part: Seq<char>) -> nat
    decreases s.len(),
{
    if s.len() == 0 {
        if trimmed(part).len() > 0 {
            1
        } else {
            0
        }
    } else if s.len() >= 2 && s[0] == '\n' && s[1] == '\n' {
        (if trimmed(part).len() > 0 {
            1nat
        } else {
            0
        }) + filled_parts(s.skip(2), Seq::empty())
    } else {
        filled_parts(s.skip(1), part.push(s[0]))
    }
}

fn is_filled(part: &String) -> (r: bool)
    ensures
        r == (trimmed(part@).len() > 0),
{
    !trim(part.as_str()).as_str().is_empty()
}

/// How many parts of a script are not blank, where an empty line ends a part.
pub fn count_paragraphs(script: &str) -> (r: usize)
    ensures
        r == filled_parts(script@, Seq::empty()),
{
    let chars = to_chars(script);
    let size: usize = chars.len();
    let mut part = String::new();
    let mut count: usize = 0;
    let mut i: usize = 0;
    assert(script@.skip(0) =~= script@);
    while i < size
        invariant
            i <= size,
            size == chars@.len(),
            chars@ == script@,
            2 * count <= i,
            filled_parts(script@, Seq::empty()) == count + filled_parts(
                script@.skip(i as int),
                part@,
            ),
        decreases size - i,
    {
        let ghost rest = script@.skip(i as int);
        if size - i >= 2 && chars[i] == '\n' && chars[i + 1] == '\n' {
            assert(rest[0] == '\n' && rest[1] == '\n');
            assert(rest.skip(2) =~= script@.skip(i + 2));
            if is_filled(&part) {
                count = count + 1;
            }
            part = String::new();
            i = i + 2;
        } else {
            assert(rest[0] == chars@[i as int]);
            if size - i >= 2 {
                assert(rest[1] == chars@[i + 1]);
            }
            assert(rest.skip(1) =~= script@.skip(i + 1));
            part.push(chars[i]);
            i = i + 1;
        }
    }
    assert(script@.skip(i as int) =~= Seq::<char>::empty());
    if is_filled(&part) {
        count + 1
    } else {
        count
    }
}

// ---------------------------------------------------------------------
// State
// ---------------------------------------------------------------------

/// The pages of the studio.
#[derive(Debug, Clone, Copy, PartialEq, Eq, Structural)]
pub enum Tab {
    Generate,
    Clone,
    Edit,
    Models,
    Convert,
    Server,
}

/// What a loaded engine is told from others by.
#[derive(Debug)]
pub struct NativeRustEngineKey {
    pub transformer: String,
    pub codec: String,
    pub workdir: String,
    pub max_new_tokens: u32,
}

/// A key as a mathematical value.
pub ghost struct EngineKeyView {
    pub transformer: Seq<char>,
    pub codec: Seq<char>,
    pub workdir: Seq<char>,
    pub max_new_tokens: u32,
}

impl View for NativeRustEngineKey {
    type V = EngineKeyView;

    open spec fn view(&self) -> EngineKeyView {
        EngineKeyView {
            transformer: self.transformer@,
            codec: self.codec@,
            workdir: self.workdir@,
            max_new_tokens: self.max_new_tokens,
        }
    }
}

/// Whether two keys are the same: their paths have the same parts, and as many tokens are allowed.
pub open spec fn same_engine(a: EngineKeyView, b: EngineKeyView) -> bool {
    &&& same_path(a.transformer, b.transformer)
    &&& same_path(a.codec, b.codec)
    &&& same_path(a.workdir, b.workdir)
    &&& a.max_new_tokens == b.max_new_tokens
}

impl NativeRustEngineKey {
    /// Whether two keys are the same.
    pub fn same_as(&self, other: &NativeRustEngineKey) -> (r: bool)
        ensures
            r == same_engine(self@, other@),
    {
        self.max_new_tokens == other.max_new_tokens && is_same_path(
            self.transformer.as_str(),
            other.transformer.as_str(),
        ) && is_same_path(self.codec.as_str(), other.codec.as_str()) && is_same_path(
            self.workdir.as_str(),
            other.workdir.as_str(),
        )
    }
}

/// The state of the studio.
#[derive(Debug)]
pub struct Studio {
    pub config: AppConfig,
    pub tab: Tab,
    pub server_running: bool,
    pub engine_key: Option<NativeRustEngineKey>,
    pub scanned: ScannedModels,
    pub status_line: String,
    pub script: String,
    pub script_cursor: usize,
    pub convert_log: String,
    pub convert_dtype: String,
    pub server_log: String,
    pub synthesis_log: String,
    pub last_wav_path: Option<String>,
    pub busy: bool,
    pub clone_name: String,
    pub clone_ref_wav: String,
    pub clone_ref_text: String,
}

/// The label of the pair that is used.
pub open spec fn chosen_label(id: Option<Seq<char>>, pairs: Seq<ModelPair>) -> Option<Seq<char>> {
    match chosen_pair(id, pairs) {
        Some(k) => Some(pairs[k].label@),
        None => None,
    }
}

/// The identifier of the pair that is used, or the one that the settings name where none is.
pub open spec fn chosen_id(id: Option<Seq<char>>, pairs: Seq<ModelPair>) -> Option<Seq<char>> {
    match chosen_pair(id, pairs) {
        Some(k) => Some(pairs[k].id@),
        None => id,
    }
}

fn same_id(a: &Option<String>, b: &Option<String>) -> (r: bool)
    ensures
        r == (optional_text(*a) == optional_text(*b)),
{
    match (a, b) {
        (Some(x), Some(y)) => str_eq(x.as_str(), y.as_str()),
        (None, None) => true,
        _ => false,
    }
}

fn copy_id(a: &Option<String>) -> (r: Option<String>)
    ensures
        optional_text(r) == optional_text(*a),
{
    match a {
        Some(x) => Some(x.clone()),
        None => None,
    }
}

impl Studio {
    /// The studio as it opens: a pair of models is chosen, and the script of last time is there.
    pub fn new(config: AppConfig, scanned: ScannedModels) -> (r: Studio)
        ensures
            r.config == (AppConfig {
                active_model_pair_id: r.config.active_model_pair_id,
                ..config
            }),
            optional_text(r.config.active_model_pair_id) == chosen_id(
                optional_text(config.active_model_pair_id),
                scanned.pairs@,
            ),
            r.scanned == scanned,
            r.tab == Tab::Generate,
            !r.server_running && !r.busy,
            r.engine_key is None && r.last_wav_path is None,
            r.status_line@ == scan_text(
                config.models_dir@,
                scanned.entries@.len(),
                scanned.pairs@.len(),
                chosen_label(optional_text(config.active_model_pair_id), scanned.pairs@),
            ),
            r.script@ == config.last_script@,
            r.script_cursor == 0,
            r.convert_log@.len() == 0 && r.server_log@.len() == 0 && r.synthesis_log@.len() == 0,
            r.convert_dtype@ == "f16"@,
            r.clone_name@ == "我的聲音"@,
            r.clone_ref_wav@.len() == 0 && r.clone_ref_text@.len() == 0,
    {
        let mut config = config;
        let selected = config.ensure_active_model_pair(scanned.pairs.as_slice());
        let label: Option<&str> = match selected {
            Some(p) => Some(p.label.as_str()),
            None => None,
        };
        let status_line = model_scan_status(config.models_dir.as_str(), &scanned, label);
        let script = config.last_script.clone();
        Studio {
            config,
            tab: Tab::Generate,
            server_running: false,
            engine_key: None,
            scanned,
            status_line,
            script,
            script_cursor: 0,
            convert_log: String::new(),
            convert_dtype: String::from_str("f16"),
            server_log: String::new(),
            synthesis_log: String::new(),
            last_wav_path: None,
            busy: false,
            clone_name: String::from_str("我的聲音"),
            clone_ref_wav: String::new(),
            clone_ref_text: String::new(),
        }
    }

    /// Makes the settings remember the script; they are to be saved then.
    pub fn persist(&mut self)
        ensures
            final(self).config.last_script@ == old(self).script@,
            *final(self) == (Studio {
                config: AppConfig {
                    last_script: final(self).config.last_script,
                    ..old(self).config
                },
                ..*old(self)
            }),
    {
        self.config.last_script = self.script.clone();
    }

    /// Chooses the pair to use. Gives whether the settings changed: they are to be saved then, and
    /// an engine that was loaded is of no use any more.
    pub fn ensure_active_pair(&mut self) -> (r: bool)
        ensures
            optional_text(final(self).config.active_model_pair_id) == chosen_id(
                optional_text(old(self).config.active_model_pair_id),
                old(self).scanned.pairs@,
            ),
            r == (optional_text(final(self).config.active_model_pair_id) != optional_text(
                old(self).config.active_model_pair_id,
            )),
            final(self).engine_key == (if r {
                None
            } else {
                old(self).engine_key
            }),
            *final(self) == (Studio {
                config: AppConfig {
                    active_model_pair_id: final(self).config.active_model_pair_id,
                    ..old(self).config
                },
                engine_key: final(self).engine_key,
                ..*old(self)
            }),
    {
        let previous = copy_id(&self.config.active_model_pair_id);
        let _ = self.config.ensure_active_model_pair(self.scanned.pairs.as_slice());
        let changed: bool = !same_id(&previous, &self.config.active_model_pair_id);
        if changed {
            self.engine_key = None;
        }
        changed
    }

    /// Takes over models that were found. Gives whether the settings changed.
    pub fn adopt_scanned_models(&mut self, models: ScannedModels) -> (r: bool)
        ensures
            final(self).scanned == models,
            optional_text(final(self).config.active_model_pair_id) == chosen_id(
                optional_text(old(self).config.active_model_pair_id),
                models.pairs@,
            ),
            r == (optional_text(final(self).config.active_model_pair_id) != optional_text(
                old(self).config.active_model_pair_id,
            )),
            final(self).engine_key == (if r {
                None
            } else {
                old(self).engine_key
            }),
            final(self).status_line@ == scan_text(
                old(self).config.models_dir@,
                models.entries@.len(),
                models.pairs@.len(),
                chosen_label(optional_text(old(self).config.active_model_pair_id), models.pairs@),
            ),
            *final(self) == (Studio {
                config: AppConfig {
                    active_model_pair_id: final(self).config.active_model_pair_id,
                    ..old(self).config
                },
                engine_key: final(self).engine_key,
                scanned: final(self).scanned,
                status_line: final(self).status_line,
                ..*old(self)
            }),
    {
        let previous = copy_id(&self.config.active_model_pair_id);
        self.scanned = models;
        let selected = self.config.ensure_active_model_pair(self.scanned.pairs.as_slice());
        let label: Option<&str> = match selected {
            Some(p) => Some(p.label.as_str()),
            None => None,
        };
        let line = model_scan_status(self.config.models_dir.as_str(), &self.scanned, label);
        if !same_id(&previous, &self.config.active_model_pair_id) {
            self.engine_key = None;
        }
        self.status_line = line;
        !same_id(&previous, &self.config.active_model_pair_id)
    }

    /// Uses the pair with an identifier from now on.
    pub fn choose_pair(&mut self, id: String)
        ensures
            optional_text(final(self).config.active_model_pair_id) == Some(id@),
            final(self).engine_key == (if optional_text(old(self).config.active_model_pair_id)
                == Some(id@) {
                old(self).engine_key
            } else {
                None
            }),
            final(self).config.last_script@ == old(self).script@,
            *final(self) == (Studio {
                config: AppConfig {
                    active_model_pair_id: final(self).config.active_model_pair_id,
                    last_script: final(self).config.last_script,
                    ..old(self).config
                },
                engine_key: final(self).engine_key,
                ..*old(self)
            }),
    {
        let next: Option<String> = Some(id);
        if !same_id(&self.config.active_model_pair_id, &next) {
            self.engine_key = None;
        }
        self.config.active_model_pair_id = next;
        self.persist();
    }

    /// Sets how many tokens are generated at most; an engine that was loaded is of no use any more,
    /// and the settings are to be saved.
    pub fn set_max_new_tokens(&mut self, count: u32)
        ensures
            final(self).config.last_script@ == old(self).script@,
            *final(self) == (Studio {
                config: AppConfig {
                    server_max_new_tokens: count,
                    last_script: final(self).config.last_script,
                    ..old(self).config
                },
                engine_key: None,
                ..*old(self)
            }),
    {
        self.config.server_max_new_tokens = count;
        self.engine_key = None;
        self.persist();
    }
}

} // verus!
