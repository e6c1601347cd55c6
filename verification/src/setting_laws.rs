//! What settings, requests and arguments come to.
use crate::args::{speech_of, SpeechProgram, SpeechView};
use crate::cli::{
    flag_named, flags_from, last_of, value_of, Flag, FlagId, FlagKind, Stray, ValueView,
};
use crate::config::{
    chosen_pair, normal_backend, pair_with_is_first, voice_with, voices_without,
};
use crate::convert::{arguments_of, first_existing, plan_error, resolved, ConvertPlan};
use crate::engine::{
    backend_named, format_refused, models_error, reference_choice, same_reference,
    stored_reference, EngineBackend, EngineConfig, KeyView, ReferenceChoice,
};
use crate::error::ErrorView;
use crate::graph::FloatReading;
use crate::models::ModelPair;
use crate::paths::same_path;
use crate::s2_process::{server_arguments, ServerStartOptions};
use crate::tags::{before_cursor, from_cursor, with_tag};
use crate::text::{dec, dec_int, lower, trimmed};
use crate::tts::{refusal_reason, TtsApiError};
use crate::voice::VoiceProfile;
use crate::wav_check::{largest, size_of, squares, warning_of, WavAnalysis};
use vstd::prelude::*;

verus! {

// ---------------------------------------------------------------------
// Voices
// ---------------------------------------------------------------------

/// The voice that is found under an identifier has it, and no earlier one does.
pub proof fn voice_with_is_first(voices: Seq<VoiceProfile>, id: u128, i: int)
    requires
        0 <= i,
    ensures
        match voice_with(voices, id, i) {
            Some(k) => i <= k < voices.len() && voices[k].id == id && forall|j: int|
                i <= j < k ==> (#[trigger] voices[j]).id != id,
            None => forall|j: int| i <= j < voices.len() ==> (#[trigger] voices[j]).id != id,
        },
    decreases voices.len() - i,
{
    if i < voices.len() && voices[i].id != id {
        voice_with_is_first(voices, id, i + 1);
    }
}

/// Removing a voice removes every voice with its identifier, and no other one.
pub proof fn removed_voices_are_gone(voices: Seq<VoiceProfile>, id: u128, n: int, v: VoiceProfile)
    requires
        0 <= n <= voices.len(),
    ensures
        voices_without(voices, id, n).contains(v) <==> v.id != id && voices.take(n).contains(v),
        voices_without(voices, id, n).len() <= n,
    decreases n,
{
    if n > 0 {
        removed_voices_are_gone(voices, id, n - 1, v);
        let before = voices_without(voices, id, n - 1);
        let now = voices_without(voices, id, n);
        let a = voices.take(n - 1);
        let b = voices.take(n);
        if a.contains(v) {
            let k = choose|k: int| 0 <= k < a.len() && a[k] == v;
            assert(b[k] == v);
        }
        if b.contains(v) && !a.contains(v) {
            let k = choose|k: int| 0 <= k < b.len() && b[k] == v;
            if k < n - 1 {
                assert(a[k] == v);
            }
            assert(v == voices[n - 1]);
        }
        assert(b[n - 1] == voices[n - 1]);
        if voices[n - 1].id != id {
            assert(now[before.len() as int] == voices[n - 1]);
            if before.contains(v) {
                let k = choose|k: int| 0 <= k < before.len() && before[k] == v;
                assert(now[k] == v);
            }
            if now.contains(v) && !before.contains(v) {
                let k = choose|k: int| 0 <= k < now.len() && now[k] == v;
                assert(k == before.len());
            }
        }
    }
}

// ---------------------------------------------------------------------
// The engine
// ---------------------------------------------------------------------

/// A backend has three names, or four, whatever the case of their letters.
pub proof fn backends_are_told_by_their_names(value: Seq<char>)
    ensures
        lower(value) == "rust"@ || lower(value) == "rust-pure"@ || lower(value) == "pure-rust"@
            ==> backend_named(value) == Some(EngineBackend::RustPure),
        backend_named(value) == Some(EngineBackend::RustPure) ==> lower(value) == "rust"@ || lower(
            value,
        ) == "rust-pure"@ || lower(value) == "pure-rust"@,
        backend_named(value) == Some(EngineBackend::Ffi) ==> lower(value) == "ffi"@ || lower(value)
            == "cpp"@ || lower(value) == "native"@,
        backend_named(value) == Some(EngineBackend::FfiCuda) ==> lower(value) == "cuda"@ || lower(
            value,
        ) == "ffi-cuda"@ || lower(value) == "cpp-cuda"@ || lower(value) == "native-cuda"@,
        backend_named(value) is None ==> lower(value) != "ffi"@ && lower(value) != "cpp"@ && lower(
            value,
        ) != "native"@ && lower(value) != "cuda"@ && lower(value) != "ffi-cuda"@ && lower(value)
            != "cpp-cuda"@ && lower(value) != "native-cuda"@,
{
}

/// An engine is loaded only where its tokenizer is there and its backend is the one that needs
/// nothing else; models are used only where both are there.
pub proof fn engines_need_their_files(
    c: EngineConfig,
    tokenizer: bool,
    a: Seq<char>,
    transformer: bool,
    b: Seq<char>,
    codec: bool,
)
    ensures
        c.load_error(tokenizer) is None <==> tokenizer && c.backend == EngineBackend::RustPure,
        models_error(a, transformer, b, codec) is None <==> transformer && codec,
{
}

/// A request uses its own reference where it gives both parts, and the engine's where it gives none;
/// anything else is refused. A directory holds a reference where it holds both parts.
pub proof fn references_need_both_parts(wav: bool, text: bool, workdir: Seq<char>)
    ensures
        reference_choice(wav, text) == Ok::<ReferenceChoice, ErrorView>(ReferenceChoice::Named)
            <==> wav && text,
        reference_choice(wav, text) == Ok::<ReferenceChoice, ErrorView>(ReferenceChoice::Default)
            <==> !wav && !text,
        reference_choice(wav, text) is Err <==> wav != text,
        stored_reference(wav, text, workdir) == Ok::<bool, ErrorView>(true) <==> wav && text,
        stored_reference(wav, text, workdir) == Ok::<bool, ErrorView>(false) <==> !wav && !text,
{
}

/// What is kept of a reference is used again only where nothing of it changed: neither its place, nor
/// its size, nor its time, nor its text.
pub proof fn kept_references_are_unchanged(a: KeyView, b: KeyView)
    ensures
        same_reference(a, b) <==> same_path(a.wav_path, b.wav_path) && a.wav_len == b.wav_len
            && a.wav_modified_nanos == b.wav_modified_nanos && a.text == b.text,
{
}

/// Only one format of sound is known.
pub proof fn sound_comes_as_wav(format: Seq<char>)
    ensures
        format_refused(format) <==> lower(format) != "wav"@,
{
}

/// The reason of a refusal is its error, else its message, else all that was answered.
pub proof fn refusals_give_their_reason(api: TtsApiError, body: Seq<char>)
    ensures
        refusal_reason(None, body) == body,
        api.error is Some ==> refusal_reason(Some(api), body) == api.error->0@,
        api.error is None && api.message is Some ==> refusal_reason(Some(api), body)
            == api.message->0@,
        api.error is None && api.message is None ==> refusal_reason(Some(api), body) == body,
{
}

// ---------------------------------------------------------------------
// Other programs
// ---------------------------------------------------------------------

/// Whether an argument stands right behind its flag at a place.
pub open spec fn stands_behind(args: Seq<Seq<char>>, at: int, flag: Seq<char>, value: Seq<char>)
    -> bool {
    &&& 0 <= at < args.len() - 1
    &&& args[at] == flag
    &&& args[at + 1] == value
}

/// The server is started with each of its settings right behind the flag for it.
pub proof fn server_settings_stand_behind_their_flags(o: ServerStartOptions)
    ensures
        stands_behind(server_arguments(o), 0, "-v"@, dec_int(o.vulkan_device as int)),
        stands_behind(
            server_arguments(o),
            2,
            "--codec-vulkan"@,
            dec_int(o.codec_vulkan_device as int),
        ),
        stands_behind(server_arguments(o), 4, "--model"@, "model.gguf"@),
        stands_behind(server_arguments(o), 6, "--model-codec"@, "codec.gguf"@),
        stands_behind(server_arguments(o), 8, "--port"@, dec(o.port as nat)),
        server_arguments(o).len() == 10,
{
}

/// The script for an export is run with each path right behind the flag for it.
pub proof fn export_paths_stand_behind_their_flags(p: ConvertPlan)
    ensures
        arguments_of(p)[0] == p.script_path@,
        stands_behind(arguments_of(p), 1, "--checkpoint-path"@, p.checkpoint_dir@),
        stands_behind(arguments_of(p), 3, "--codec-checkpoint-path"@, p.codec_path@),
        stands_behind(arguments_of(p), 5, "--output"@, p.output_path@),
        stands_behind(arguments_of(p), 7, "--out-dtype"@, p.out_dtype@),
        arguments_of(p).len() == 9,
{
}

/// An export is refused exactly where one of its files is missing.
pub proof fn exports_need_their_files(p: ConvertPlan, config: bool, codec: bool, script: bool)
    ensures
        plan_error(p, config, codec, script) is None <==> config && codec && script,
{
}

/// A path that was set is used where it exists; else the first candidate that does; and the path that
/// was set where none does.
pub proof fn paths_that_exist_are_preferred(
    set: Seq<char>,
    exists_set: bool,
    candidates: Seq<Seq<char>>,
    flags: Seq<bool>,
    k: int,
)
    requires
        flags.len() == candidates.len(),
    ensures
        exists_set ==> resolved(set, exists_set, candidates, flags) == set,
        !exists_set && 0 <= k < candidates.len() && flags[k] && (forall|j: int|
            0 <= j < k ==> !#[trigger] flags[j]) ==> resolved(set, exists_set, candidates, flags)
            == candidates[k],
        !exists_set && (forall|j: int| 0 <= j < flags.len() ==> !#[trigger] flags[j]) ==> resolved(
            set,
            exists_set,
            candidates,
            flags,
        ) == set,
{
    if 0 <= k < candidates.len() && flags[k] && (forall|j: int|
        0 <= j < k ==> !#[trigger] flags[j]) {
        lemma_first_existing(candidates, flags, 0, k, set);
    }
    if forall|j: int| 0 <= j < flags.len() ==> !#[trigger] flags[j] {
        lemma_none_existing(candidates, flags, 0, set);
    }
}

proof fn lemma_first_existing(
    candidates: Seq<Seq<char>>,
    flags: Seq<bool>,
    i: int,
    k: int,
    set: Seq<char>,
)
    requires
        flags.len() == candidates.len(),
        0 <= i <= k < candidates.len(),
        flags[k],
        forall|j: int| i <= j < k ==> !#[trigger] flags[j],
    ensures
        first_existing(candidates, flags, i, set) == candidates[k],
    decreases k - i,
{
    if i < k {
        lemma_first_existing(candidates, flags, i + 1, k, set);
    }
}

proof fn lemma_none_existing(
    candidates: Seq<Seq<char>>,
    flags: Seq<bool>,
    i: int,
    set: Seq<char>,
)
    requires
        flags.len() == candidates.len(),
        0 <= i,
        forall|j: int| 0 <= j < flags.len() ==> !#[trigger] flags[j],
    ensures
        first_existing(candidates, flags, i, set) == set,
    decreases candidates.len() - i,
{
    if i < candidates.len() {
        lemma_none_existing(candidates, flags, i + 1, set);
    }
}

// ---------------------------------------------------------------------
// Tags and sound
// ---------------------------------------------------------------------

/// A tag is put in at the cursor: what stood before it stands before the tag, what stood behind it
/// behind the tag, and there is at most one space more on either side.
pub proof fn tags_stand_at_the_cursor(text: Seq<char>, cursor: nat, tag: Seq<char>)
    ensures
        ({
            let all = with_tag(text, cursor, tag);
            let before = before_cursor(text, cursor);
            let after = from_cursor(text, cursor);
            exists|at: int, end: int|
                {
                    &&& before.len() <= at <= before.len() + 1
                    &&& at + tag.len() <= end <= at + tag.len() + 1
                    &&& all.take(before.len() as int) == before
                    &&& #[trigger] all.subrange(before.len() as int, at) == (if at > before.len() {
                        seq![' ']
                    } else {
                        Seq::empty()
                    })
                    &&& all.subrange(at, at + tag.len()) == tag
                    &&& #[trigger] all.subrange(at + tag.len(), end) == (if end > at + tag.len() {
                        seq![' ']
                    } else {
                        Seq::empty()
                    })
                    &&& all.skip(end) == after
                    &&& before.len() == 0 ==> at == 0
                    &&& before.len() > 0 && before.last() == ' ' ==> at == before.len()
                }
        }),
{
    reveal_strlit(" ");
    assert(" "@ =~= seq![' ']);
    let before = before_cursor(text, cursor);
    let after = from_cursor(text, cursor);
    let lead = if tag.len() > 0 && before.len() > 0 && before.last() != ' ' {
        " "@
    } else {
        Seq::empty()
    };
    let trail = if crate::tags::clamped(text, cursor) < vstd::utf8::encode_utf8(text).len() && !(
    after.len() > 0 && after[0] == ' ') {
        " "@
    } else {
        Seq::empty()
    };
    let all = with_tag(text, cursor, tag);
    assert(all == before + lead + tag + trail + after);
    let at = (before.len() + lead.len()) as int;
    let end = at + tag.len() + trail.len();
    assert(all.take(before.len() as int) =~= before);
    assert(all.subrange(before.len() as int, at) =~= lead);
    assert(all.subrange(at, at + tag.len()) =~= tag);
    assert(all.subrange(at + tag.len(), end) =~= trail);
    assert(all.skip(end) =~= after);
}

/// The peak of samples is as far from zero as one of them, and none is further.
pub proof fn peaks_are_reached_and_not_exceeded(v: Seq<i16>, n: int, i: int)
    requires
        0 <= n <= v.len(),
        0 <= i < n,
    ensures
        largest(v, n) >= (if v[i] < 0 {
            -v[i]
        } else {
            v[i] as int
        }),
        exists|k: int| 0 <= k < n && largest(v, n) == size_of(#[trigger] v[k]),
    decreases n,
{
    if n > 1 {
        if i < n - 1 {
            peaks_are_reached_and_not_exceeded(v, n - 1, i);
        } else {
            peaks_are_reached_and_not_exceeded(v, n - 1, 0);
        }
        let k = choose|k: int|
            0 <= k < n - 1 && largest(v, n - 1) == size_of(#[trigger] v[k]);
        if size_of(v[n - 1]) > largest(v, n - 1) {
            assert(largest(v, n) == size_of(v[n - 1]));
        } else {
            assert(largest(v, n) == size_of(v[k]));
        }
    } else {
        assert(largest(v, 0) == 0);
        assert(largest(v, 1) == size_of(v[0]));
    }
}

/// Every further sample adds its square.
pub proof fn squares_add_up(v: Seq<i16>, s: i16)
    ensures
        squares(v.push(s), (v.len() + 1) as int) == squares(v, v.len() as int) + s * s,
        squares(v, 0) == 0,
{
    lemma_squares_of_longer(v, s, v.len() as int);
    let n = size_of(s) as int;
    assert(n * n == s * s) by (nonlinear_arith)
        requires
            n == s || n == -s,
    ;
}

proof fn lemma_squares_of_longer(v: Seq<i16>, s: i16, n: int)
    requires
        0 <= n <= v.len(),
    ensures
        squares(v.push(s), n) == squares(v, n),
    decreases n,
{
    if n > 0 {
        lemma_squares_of_longer(v, s, n - 1);
    }
}

/// Sound is worth a warning exactly where it is shorter than half a second, or close to silence.
pub proof fn short_or_silent_sound_is_worth_a_warning(
    a: WavAnalysis,
    most: u32,
    duration: Seq<char>,
    rms: Seq<char>,
    peak: Seq<char>,
)
    ensures
        warning_of(a, most, duration, rms, peak) is Some <==> (a.frames * 2 < a.sample_rate
            || a.samples == 0 || a.square_sum * 1_000_000 < a.samples * 1_073_741_824 || a.peak
            * 1000 < 65_536),
{
}

// ---------------------------------------------------------------------
// Arguments
// ---------------------------------------------------------------------

/// A flag with a value adds what the value stands for, a switch adds that it was set, and reading goes
/// on behind them.
pub proof fn flags_add_their_values(
    args: Seq<Seq<char>>,
    floats: Seq<FloatReading>,
    flags: Seq<Flag>,
    stray: Stray,
    i: int,
    found: Seq<(FlagId, ValueView)>,
    flag: Flag,
    v: ValueView,
)
    requires
        0 <= i < args.len(),
        flag_named(flags, args[i], 0) == Some(flag),
    ensures
        flag.kind == FlagKind::Switch ==> flags_from(args, floats, flags, stray, i, found)
            == flags_from(args, floats, flags, stray, i + 1, found.push((flag.id, ValueView::On))),
        flag.kind != FlagKind::Switch && i + 1 < args.len() && value_of(
            flag,
            args[i + 1],
            floats[i + 1],
        ) == Ok::<ValueView, ErrorView>(v) ==> flags_from(args, floats, flags, stray, i, found)
            == flags_from(args, floats, flags, stray, i + 2, found.push((flag.id, v))),
        flag.kind != FlagKind::Switch && i + 1 < args.len() && value_of(
            flag,
            args[i + 1],
            floats[i + 1],
        ) is Err ==> flags_from(args, floats, flags, stray, i, found) is Err,
{
}

/// Where there are no more arguments, what was found is the result.
pub proof fn flags_end_with_the_arguments(
    args: Seq<Seq<char>>,
    floats: Seq<FloatReading>,
    flags: Seq<Flag>,
    stray: Stray,
    found: Seq<(FlagId, ValueView)>,
)
    ensures
        flags_from(args, floats, flags, stray, args.len() as int, found) == Ok::<
            Option<Seq<(FlagId, ValueView)>>,
            ErrorView,
        >(Some(found)),
{
}

/// A flag is found by its long or its short name, the first one that has it.
pub proof fn flags_are_found_by_their_names(flags: Seq<Flag>, name: Seq<char>, k: int)
    requires
        0 <= k < flags.len(),
        flags[k].name@ == name || flags[k].short@ == name,
        forall|j: int|
            0 <= j < k ==> (#[trigger] flags[j]).name@ != name && flags[j].short@ != name,
    ensures
        flag_named(flags, name, 0) == Some(flags[k]),
{
    lemma_flag_named(flags, name, 0, k);
}

proof fn lemma_flag_named(flags: Seq<Flag>, name: Seq<char>, i: int, k: int)
    requires
        0 <= i <= k < flags.len(),
        flags[k].name@ == name || flags[k].short@ == name,
        forall|j: int|
            i <= j < k ==> (#[trigger] flags[j]).name@ != name && flags[j].short@ != name,
    ensures
        flag_named(flags, name, i) == Some(flags[k]),
    decreases k - i,
{
    if i < k {
        lemma_flag_named(flags, name, i + 1, k);
    }
}

/// A program that speaks does what its flags say, each about its own thing.
pub proof fn speech_follows_its_flags(
    p: SpeechProgram,
    found: Seq<(FlagId, ValueView)>,
    root: Seq<char>,
    v: SpeechView,
)
    requires
        speech_of(p, found, root) == Ok::<SpeechView, ErrorView>(v),
    ensures
        last_of(found, FlagId::Transformer, found.len() as int) matches Some(ValueView::Text(t))
            ==> v.transformer == t,
        last_of(found, FlagId::Codec, found.len() as int) matches Some(ValueView::Text(t))
            ==> v.codec == t,
        last_of(found, FlagId::Tokenizer, found.len() as int) matches Some(ValueView::Text(t))
            ==> v.tokenizer == t,
        last_of(found, FlagId::Text, found.len() as int) matches Some(ValueView::Text(t))
            ==> v.text == t,
        last_of(found, FlagId::PromptText, found.len() as int) matches Some(ValueView::Text(t))
            ==> v.prompt_text == Some(t),
        last_of(found, FlagId::PromptCodes, found.len() as int) matches Some(ValueView::Text(t))
            ==> v.prompt_codes == Some(t),
        last_of(found, FlagId::Output, found.len() as int) matches Some(ValueView::Text(t))
            ==> v.output == t,
        last_of(found, FlagId::Codes, found.len() as int) matches Some(ValueView::Text(t))
            ==> v.codes == t,
        last_of(found, FlagId::Wav, found.len() as int) matches Some(ValueView::Text(t)) ==> v.wav
            == t,
        last_of(found, FlagId::MaxNewTokens, found.len() as int) matches Some(
            ValueView::Unsigned(n),
        ) ==> n <= u32::MAX ==> v.params.max_new_tokens == n,
        last_of(found, FlagId::MinTokensBeforeEnd, found.len() as int) matches Some(
            ValueView::Unsigned(n),
        ) ==> n <= u32::MAX ==> v.params.min_tokens_before_end == n,
        last_of(found, FlagId::Seed, found.len() as int) matches Some(ValueView::Unsigned(n))
            ==> v.seed == n,
        last_of(found, FlagId::TopK, found.len() as int) matches Some(ValueView::Signed(n))
            ==> v.params.top_k == n,
        last_of(found, FlagId::Temperature, found.len() as int) matches Some(ValueView::Float(b))
            ==> v.params.temperature == b,
        last_of(found, FlagId::TopP, found.len() as int) matches Some(ValueView::Float(b))
            ==> v.params.top_p == b,
{
}

/// A backend setting is used as it is written, without spaces around it. Where it is blank, or names the
/// outside process, it means the backend that needs nothing else.
pub proof fn backend_settings_are_used_as_written(value: Seq<char>)
    ensures
        trimmed(value).len() == 0 ==> normal_backend(value) == "rust-pure"@,
        lower(trimmed(value)) == "subprocess"@ || lower(trimmed(value)) == "s2"@ || lower(
            trimmed(value),
        ) == "s2.exe"@ ==> normal_backend(value) == "rust-pure"@,
        trimmed(value).len() > 0 && lower(trimmed(value)) != "subprocess"@ && lower(trimmed(value))
            != "s2"@ && lower(trimmed(value)) != "s2.exe"@ ==> normal_backend(value) == trimmed(
            value,
        ),
{
}

/// The pair that the settings name is used where it exists, and the first one elsewhere.
pub proof fn named_pairs_are_used(id: Seq<char>, pairs: Seq<ModelPair>, k: int)
    requires
        0 <= k < pairs.len(),
    ensures
        pairs[k].id@ == id && (forall|j: int| 0 <= j < k ==> (#[trigger] pairs[j]).id@ != id)
            ==> chosen_pair(Some(id), pairs) == Some(k),
        (forall|j: int| 0 <= j < pairs.len() ==> (#[trigger] pairs[j]).id@ != id) ==> chosen_pair(
            Some(id),
            pairs,
        ) == Some(0int),
        chosen_pair(None, pairs) == Some(0int),
        chosen_pair(Some(id), Seq::empty()) is None,
{
    pair_with_is_first(pairs, id, 0);
}

} // verus!
