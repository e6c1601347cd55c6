//! The settings of the program.
use crate::gguf_summary::optional_text;
use crate::models::ModelPair;
use crate::paths::{
    join, join_path, models_dir, models_place, output_dir, output_place, server_place,
    server_workdir,
};
use crate::text::{lower, str_eq, to_ascii_lowercase, trim, trimmed};
use crate::voice::VoiceProfile;
use vstd::prelude::*;
use vstd::string::*;

verus! {

/// The settings of the program.
#[derive(Debug)]
pub struct AppConfig {
    pub models_dir: String,
    pub output_dir: String,
    pub server_workdir: String,
    pub server_port: u16,
    pub server_backend: String,
    pub server_max_new_tokens: u32,
    pub vulkan_device: i32,
    pub codec_vulkan_device: i32,
    pub cuda_device: i32,
    pub use_rust_engine: bool,
    pub active_model_pair_id: Option<String>,
    pub voices: Vec<VoiceProfile>,
    pub active_voice_id: Option<u128>,
    pub last_script: String,
    pub tts_role: String,
    pub tts_tone: String,
    pub tts_pace: String,
    pub tts_pitch: String,
    pub tts_energy: String,
    pub convert_checkpoint_dir: String,
    pub convert_script: String,
    pub python_exe: String,
}

/// How many tokens are generated where the settings do not say.
pub const DEFAULT_MAX_NEW_TOKENS: u32 = 32;

/// The engine used where the settings do not say.
pub fn default_server_backend() -> (r: String)
    ensures
        r@ == "rust-pure"@,
{
    String::from_str("rust-pure")
}

/// How many tokens are generated where the settings do not say.
pub fn default_server_max_new_tokens() -> (r: u32)
    ensures
        r == 32,
{
    DEFAULT_MAX_NEW_TOKENS
}

/// The role spoken in where the settings do not say.
pub fn default_tts_role() -> (r: String)
    ensures
        r@ == "default"@,
{
    String::from_str("default")
}

/// The tone spoken in where the settings do not say.
pub fn default_tts_tone() -> (r: String)
    ensures
        r@ == "natural"@,
{
    String::from_str("natural")
}

/// The pace spoken at where the settings do not say.
pub fn default_tts_pace() -> (r: String)
    ensures
        r@ == "normal"@,
{
    String::from_str("normal")
}

/// The pitch spoken at where the settings do not say.
pub fn default_tts_pitch() -> (r: String)
    ensures
        r@ == "normal"@,
{
    String::from_str("normal")
}

/// The energy spoken with where the settings do not say.
pub fn default_tts_energy() -> (r: String)
    ensures
        r@ == "normal"@,
{
    String::from_str("normal")
}

/// Whether a backend name means the outside process, which is no longer offered.
pub open spec fn is_outside_backend(name: Seq<char>) -> bool {
    lower(name) == "subprocess"@ || lower(name) == "s2"@ || lower(name) == "s2.exe"@
}

/// The backend that a setting means.
pub open spec fn normal_backend(value: Seq<char>) -> Seq<char> {
    if trimmed(value).len() == 0 || is_outside_backend(trimmed(value)) {
        "rust-pure"@
    } else {
        trimmed(value)
    }
}

/// The backend that a setting means.
pub fn normalize_server_backend(value: &str) -> (r: String)
    ensures
        r@ == normal_backend(value@),
{
    let name = trim(value);
    if name.as_str().is_empty() {
        return default_server_backend();
    }
    let low = to_ascii_lowercase(name.as_str());
    let l = low.as_str();
    if str_eq(l, "subprocess") || str_eq(l, "s2") || str_eq(l, "s2.exe") {
        return default_server_backend();
    }
    name
}

/// Settings as they are without a settings file, for a project at `root`.
pub open spec fn is_default_for(c: AppConfig, root: Seq<char>) -> bool {
    &&& c.models_dir@ == models_place(root)
    &&& c.output_dir@ == output_place(root)
    &&& c.server_workdir@ == server_place(root)
    &&& c.server_port == 8081
    &&& c.server_backend@ == "rust-pure"@
    &&& c.server_max_new_tokens == 32
    &&& c.vulkan_device == 0
    &&& c.codec_vulkan_device == 0
    &&& c.cuda_device == 0
    &&& c.use_rust_engine
    &&& c.active_model_pair_id is None
    &&& c.voices@.len() == 0
    &&& c.active_voice_id is None
    &&& c.last_script@ == "你好，這是使用 Fish Audio S2 Pro 生成的語音。"@
    &&& c.tts_role@ == "default"@
    &&& c.tts_tone@ == "natural"@
    &&& c.tts_pace@ == "normal"@
    &&& c.tts_pitch@ == "normal"@
    &&& c.tts_energy@ == "normal"@
    &&& c.convert_checkpoint_dir@.len() == 0
    &&& c.convert_script@.len() == 0
    &&& c.python_exe@ == "python"@
}

/// The position of the first voice from `i` on with the given identifier.
pub open spec fn voice_with(voices: Seq<VoiceProfile>, id: u128, i: int) -> Option<int>
    decreases voices.len() - i,
{
    if i < 0 || i >= voices.len() {
        None
    } else if voices[i].id == id {
        Some(i)
    } else {
        voice_with(voices, id, i + 1)
    }
}

/// The position of the first pair from `i` on with the given identifier.
pub open spec fn pair_with(pairs: Seq<ModelPair>, id: Seq<char>, i: int) -> Option<int>
    decreases pairs.len() - i,
{
    if i < 0 || i >= pairs.len() {
        None
    } else if pairs[i].id@ == id {
        Some(i)
    } else {
        pair_with(pairs, id, i + 1)
    }
}

/// The pair that the settings name, if it is among the pairs.
pub open spec fn named_pair(active: Option<Seq<char>>, pairs: Seq<ModelPair>) -> Option<int> {
    match active {
        None => None,
        Some(id) => pair_with(pairs, id, 0),
    }
}

/// The pair to use: the one that the settings name, else the first one.
pub open spec fn chosen_pair(active: Option<Seq<char>>, pairs: Seq<ModelPair>) -> Option<int> {
    match named_pair(active, pairs) {
        Some(k) => Some(k),
        None => if pairs.len() > 0 {
            Some(0)
        } else {
            None
        },
    }
}

fn find_pair(pairs: &[ModelPair], id: &str) -> (r: Option<usize>)
    ensures
        match r {
            Some(k) => k < pairs@.len() && pair_with(pairs@, id@, 0) == Some(k as int),
            None => pair_with(pairs@, id@, 0) is None,
        },
{
    let mut i: usize = 0;
    while i < pairs.len()
        invariant
            i <= pairs@.len(),
            pair_with(pairs@, id@, 0) == pair_with(pairs@, id@, i as int),
        decreases pairs@.len() - i,
    {
        if str_eq(pairs[i].id.as_str(), id) {
            return Some(i);
        }
        i = i + 1;
    }
    None
}

/// The voices whose identifier is another one, among the first `n`.
pub open spec fn voices_without(voices: Seq<VoiceProfile>, id: u128, n: int) -> Seq<VoiceProfile>
    decreases n,
{
    if n <= 0 {
        Seq::empty()
    } else if voices[n - 1].id != id {
        voices_without(voices, id, n - 1).push(voices[n - 1])
    } else {
        voices_without(voices, id, n - 1)
    }
}

impl AppConfig {
    /// Settings as they are without a settings file, for a project at `root`.
    pub fn with_root(root: &str) -> (r: AppConfig)
        ensures
            is_default_for(r, root@),
    {
        AppConfig {
            models_dir: models_dir(root),
            output_dir: output_dir(root),
            server_workdir: server_workdir(root),
            server_port: 8081,
            server_backend: default_server_backend(),
            server_max_new_tokens: default_server_max_new_tokens(),
            vulkan_device: 0,
            codec_vulkan_device: 0,
            cuda_device: 0,
            use_rust_engine: true,
            active_model_pair_id: None,
            voices: Vec::new(),
            active_voice_id: None,
            last_script: String::from_str("你好，這是使用 Fish Audio S2 Pro 生成的語音。"),
            tts_role: default_tts_role(),
            tts_tone: default_tts_tone(),
            tts_pace: default_tts_pace(),
            tts_pitch: default_tts_pitch(),
            tts_energy: default_tts_energy(),
            convert_checkpoint_dir: String::new(),
            convert_script: String::new(),
            python_exe: String::from_str("python"),
        }
    }

    /// Where the settings of the project at `root` are kept.
    pub fn config_path(root: &str) -> (r: String)
        ensures
            r@ == join(root@, "config.json"@),
    {
        join_path(root, "config.json")
    }

    /// Settings that were read from a file, with what the file left open filled in.
    pub fn complete_loaded(&mut self, root: &str)
        ensures
            final(self).models_dir@ == (if old(self).models_dir@.len() == 0 {
                models_place(root@)
            } else {
                old(self).models_dir@
            }),
            final(self).server_backend@ == normal_backend(old(self).server_backend@),
            final(self).server_max_new_tokens == (if old(self).server_max_new_tokens == 0 {
                32
            } else {
                old(self).server_max_new_tokens
            }),
            *final(self) == (AppConfig {
                models_dir: final(self).models_dir,
                server_backend: final(self).server_backend,
                server_max_new_tokens: final(self).server_max_new_tokens,
                ..*old(self)
            }),
    {
        if self.models_dir.as_str().is_empty() {
            self.models_dir = models_dir(root);
        }
        let backend = normalize_server_backend(self.server_backend.as_str());
        self.server_backend = backend;
        if self.server_max_new_tokens == 0 {
            self.server_max_new_tokens = default_server_max_new_tokens();
        }
    }

    /// The voice to speak with.
    pub fn active_voice(&self) -> (r: Option<&VoiceProfile>)
        ensures
            match r {
                Some(v) => self.active_voice_id is Some && voice_with(
                    self.voices@,
                    self.active_voice_id->0,
                    0,
                ) is Some && *v == self.voices@[voice_with(
                    self.voices@,
                    self.active_voice_id->0,
                    0,
                )->0],
                None => self.active_voice_id is None || voice_with(
                    self.voices@,
                    self.active_voice_id->0,
                    0,
                ) is None,
            },
    {
        match self.active_voice_id {
            None => None,
            Some(id) => {
                let mut i: usize = 0;
                while i < self.voices.len()
                    invariant
                        i <= self.voices@.len(),
                        self.active_voice_id == Some(id),
                        voice_with(self.voices@, id, 0) == voice_with(self.voices@, id, i as int),
                    decreases self.voices@.len() - i,
                {
                    if self.voices[i].id == id {
                        return Some(&self.voices[i]);
                    }
                    i = i + 1;
                }
                None
            },
        }
    }

    /// The pair of models that the settings name.
    pub fn active_model_pair<'a>(&self, pairs: &'a [ModelPair]) -> (r: Option<&'a ModelPair>)
        ensures
            match r {
                Some(p) => named_pair(optional_text(self.active_model_pair_id), pairs@) is Some
                    && *p == pairs@[named_pair(
                    optional_text(self.active_model_pair_id),
                    pairs@,
                )->0],
                None => named_pair(optional_text(self.active_model_pair_id), pairs@) is None,
            },
    {
        match &self.active_model_pair_id {
            None => None,
            Some(id) => match find_pair(pairs, id.as_str()) {
                Some(k) => Some(&pairs[k]),
                None => None,
            },
        }
    }

    /// Makes the settings name a pair that exists, where there is one, and gives that pair.
    pub fn ensure_active_model_pair<'a>(&mut self, pairs: &'a [ModelPair]) -> (r: Option<
        &'a ModelPair,
    >)
        ensures
            match r {
                Some(p) => chosen_pair(optional_text(old(self).active_model_pair_id), pairs@)
                    is Some && *p == pairs@[chosen_pair(
                    optional_text(old(self).active_model_pair_id),
                    pairs@,
                )->0] && optional_text(final(self).active_model_pair_id) == Some(p.id@),
                None => pairs@.len() == 0 && final(self).active_model_pair_id == old(
                    self,
                ).active_model_pair_id,
            },
            *final(self) == (AppConfig {
                active_model_pair_id: final(self).active_model_pair_id,
                ..*old(self)
            }),
    {
        let named: Option<usize> = match &self.active_model_pair_id {
            None => None,
            Some(id) => find_pair(pairs, id.as_str()),
        };
        proof {
            if self.active_model_pair_id is Some {
                pair_with_is_first(pairs@, self.active_model_pair_id->0@, 0);
            }
        }
        match named {
            Some(k) => Some(&pairs[k]),
            None => {
                if pairs.len() == 0 {
                    return None;
                }
                self.active_model_pair_id = Some(pairs[0].id.clone());
                Some(&pairs[0])
            },
        }
    }

    /// Adds a voice and speaks with it from now on.
    pub fn add_voice(&mut self, voice: VoiceProfile)
        ensures
            final(self).voices@ == old(self).voices@.push(voice),
            final(self).active_voice_id == Some(voice.id),
            *final(self) == (AppConfig {
                voices: final(self).voices,
                active_voice_id: final(self).active_voice_id,
                ..*old(self)
            }),
    {
        let id: u128 = voice.id;
        self.voices.push(voice);
        self.active_voice_id = Some(id);
    }

    /// Removes the voices with the given identifier. Where it was the one spoken with, the first
    /// voice that is left takes its place.
    pub fn remove_voice(&mut self, id: u128)
        ensures
            final(self).voices@ == voices_without(old(self).voices@, id, old(self).voices@.len() as int),
            final(self).active_voice_id == (if old(self).active_voice_id == Some(id) {
                if final(self).voices@.len() > 0 {
                    Some(final(self).voices@[0].id)
                } else {
                    None
                }
            } else {
                old(self).active_voice_id
            }),
            *final(self) == (AppConfig {
                voices: final(self).voices,
                active_voice_id: final(self).active_voice_id,
                ..*old(self)
            }),
    {
        let ghost before = self.voices@;
        let mut rest: Vec<VoiceProfile> = Vec::new();
        std::mem::swap(&mut rest, &mut self.voices);
        let ghost mut taken: int = before.len() as int;
        let mut reversed: Vec<VoiceProfile> = Vec::new();
        while rest.len() > 0
            invariant
                0 <= taken <= before.len(),
                rest@ == before.take(taken),
                voices_without(before, id, before.len() as int) == voices_without(
                    before,
                    id,
                    taken,
                ) + reversed@.reverse(),
                self.voices@.len() == 0,
                *self == (AppConfig { voices: self.voices, ..*old(self) }),
                rest@.len() == taken,
            decreases rest@.len(),
        {
            let ghost prefix = voices_without(before, id, taken - 1);
            match rest.pop() {
                None => {},
                Some(v) => {
                    let ghost back = reversed@.reverse();
                    assert(v == before[taken - 1]);
                    if v.id != id {
                        let ghost old_reversed = reversed@;
                        reversed.push(v);
                        assert(reversed@.reverse() =~= seq![v] + old_reversed.reverse());
                        assert(prefix.push(v) + back =~= prefix + (seq![v] + back));
                    }
                },
            }
            proof {
                taken = taken - 1;
                assert(rest@ =~= before.take(taken));
            }
        }
        let ghost kept = reversed@.reverse();
        assert(voices_without(before, id, before.len() as int) =~= kept);
        let mut voices: Vec<VoiceProfile> = Vec::new();
        while reversed.len() > 0
            invariant
                voices@ + reversed@.reverse() == kept,
                *self == (AppConfig { voices: self.voices, ..*old(self) }),
            decreases reversed@.len(),
        {
            let ghost before_pop = reversed@;
            match reversed.pop() {
                None => {},
                Some(v) => {
                    let ghost out = voices@;
                    voices.push(v);
                    assert(before_pop.reverse() =~= seq![v] + reversed@.reverse());
                    assert(out.push(v) + reversed@.reverse() =~= out + before_pop.reverse());
                },
            }
        }
        assert(voices@ =~= kept);
        self.voices = voices;
        let was_active: bool = match self.active_voice_id {
            Some(active) => active == id,
            None => false,
        };
        if was_active {
            self.active_voice_id = if self.voices.len() > 0 {
                Some(self.voices[0].id)
            } else {
                None
            };
        }
    }
}

/// The files that a reference voice is written to, in the server's working directory.
pub fn reference_files(workdir: &str) -> (r: (String, String))
    ensures
        r.0@ == join(workdir@, "reference.wav"@),
        r.1@ == join(workdir@, "reference.txt"@),
{
    (join_path(workdir, "reference.wav"), join_path(workdir, "reference.txt"))
}

// ---------------------------------------------------------------------
// What holds of settings
// ---------------------------------------------------------------------

/// The pair that is found under an identifier has it, and no earlier one does.
pub proof fn pair_with_is_first(pairs: Seq<ModelPair>, id: Seq<char>, i: int)
    requires
        0 <= i,
    ensures
        match pair_with(pairs, id, i) {
            Some(k) => i <= k < pairs.len() && pairs[k].id@ == id && forall|j: int|
                i <= j < k ==> (#[trigger] pairs[j]).id@ != id,
            None => forall|j: int| i <= j < pairs.len() ==> (#[trigger] pairs[j]).id@ != id,
        },
    decreases pairs.len() - i,
{
    if i < pairs.len() && pairs[i].id@ != id {
        pair_with_is_first(pairs, id, i + 1);
    }
}

/// Once the settings name a pair that exists, choosing again changes nothing.
pub proof fn choosing_a_pair_is_stable(active: Option<Seq<char>>, pairs: Seq<ModelPair>)
    requires
        chosen_pair(active, pairs) is Some,
    ensures
        ({
            let id = pairs[chosen_pair(active, pairs)->0].id@;
            let again = chosen_pair(Some(id), pairs);
            again is Some && pairs[again->0].id@ == id
        }),
        ({
            let id = pairs[chosen_pair(active, pairs)->0].id@;
            named_pair(active, pairs) is Some ==> chosen_pair(Some(id), pairs) == chosen_pair(
                active,
                pairs,
            )
        }),
{
    let k = chosen_pair(active, pairs)->0;
    if active is Some {
        pair_with_is_first(pairs, active->0, 0);
    }
    pair_with_is_first(pairs, pairs[k].id@, 0);
    let again = pair_with(pairs, pairs[k].id@, 0);
    assert(pairs[k].id@ == pairs[k].id@);
}

proof fn lemma_strip_start_stable(s: Seq<char>, p: spec_fn(char) -> bool)
    ensures
        crate::text::strip_start(crate::text::strip_start(s, p), p) == crate::text::strip_start(
            s,
            p,
        ),
        crate::text::strip_start(s, p).len() > 0 ==> !p(crate::text::strip_start(s, p)[0]),
    decreases s.len(),
{
    if s.len() > 0 && p(s[0]) {
        lemma_strip_start_stable(s.skip(1), p);
    }
}

proof fn lemma_strip_end_stable(s: Seq<char>, p: spec_fn(char) -> bool)
    ensures
        crate::text::strip_end(crate::text::strip_end(s, p), p) == crate::text::strip_end(s, p),
        crate::text::strip_end(s, p).len() > 0 ==> crate::text::strip_end(s, p)[0] == s[0],
        crate::text::strip_end(s, p).len() <= s.len(),
    decreases s.len(),
{
    if s.len() > 0 && p(s.last()) {
        lemma_strip_end_stable(s.drop_last(), p);
    }
}

/// Trimming a trimmed text changes nothing.
pub proof fn trimming_is_stable(s: Seq<char>)
    ensures
        trimmed(trimmed(s)) == trimmed(s),
{
    let p = |c: char| crate::text::is_space(c);
    let a = crate::text::strip_start(s, p);
    lemma_strip_start_stable(s, p);
    lemma_strip_end_stable(a, p);
    let b = crate::text::strip_end(a, p);
    if b.len() > 0 {
        assert(b[0] == a[0]);
    }
    assert(crate::text::strip_start(b, p) == b);
}

/// A backend setting that was brought to its normal form stays as it is.
pub proof fn normal_backend_is_stable(value: Seq<char>)
    ensures
        normal_backend(normal_backend(value)) == normal_backend(value),
{
    trimming_is_stable(value);
    let fallback = "rust-pure"@;
    reveal_strlit("rust-pure");
    let p = |c: char| crate::text::is_space(c);
    assert(crate::text::strip_start(fallback, p) == fallback);
    assert(crate::text::strip_end(fallback, p) == fallback);
    reveal_strlit("subprocess");
    reveal_strlit("s2");
    reveal_strlit("s2.exe");
    assert(lower(fallback).len() == 9);
}

} // verus!
