//! What the studio's decisions come to.
use crate::codec_registry::numbered;
use crate::config::{chosen_pair, AppConfig};
use crate::models::{missing_file, ModelPair, PairView};
use crate::number::parse_reads_back_decimal;
use crate::paths::same_path;
use crate::setting_laws::voice_with_is_first;
use crate::studio::{
    chosen_id, chosen_label, filled_parts, logged, same_engine, EngineKeyView, Studio,
};
use crate::studio_work::{
    active_reference, engine_key_of, native_refusal, server_refusal, server_start_refusal,
};
use crate::text::{dec, occurs_at, trimmed};
use crate::tokenizer_s2cpp::{lemma_next_at, next_at};
use vstd::prelude::*;

verus! {

/// A text is spoken by a loaded engine exactly where both models are there and the text is not blank;
/// through the server where it runs and the text is not blank.
pub proof fn blank_texts_are_not_spoken(
    pair: PairView,
    transformer: bool,
    codec: bool,
    script: Seq<char>,
    running: bool,
)
    ensures
        native_refusal(pair, transformer, codec, script) is None <==> transformer && codec
            && trimmed(script).len() > 0,
        server_refusal(running, script) is None <==> running && trimmed(script).len() > 0,
        missing_file(pair, transformer, codec) is None <==> transformer && codec,
{
}

/// A server is started exactly where both models are there and its backend is known.
pub proof fn servers_need_models_and_a_backend(
    pair: PairView,
    transformer: bool,
    codec: bool,
    backend: Seq<char>,
)
    ensures
        server_start_refusal(pair, transformer, codec, backend) is None <==> transformer && codec
            && crate::engine::backend_named(backend) is Some,
{
}

/// The voice to speak after is the one that the settings name: its own sound and its own text.
pub proof fn active_voices_are_those_named(c: AppConfig, k: int)
    requires
        0 <= k < c.voices@.len(),
        c.active_voice_id == Some(c.voices@[k].id),
        forall|j: int| 0 <= j < k ==> (#[trigger] c.voices@[j]).id != c.voices@[k].id,
    ensures
        active_reference(c) == Some(
            (c.voices@[k].reference_wav@, c.voices@[k].reference_text@),
        ),
{
    voice_with_is_first(c.voices@, c.voices@[k].id, 0);
}

/// Without a voice that the settings name, and that exists, there is none to speak after.
pub proof fn no_voice_no_reference(c: AppConfig)
    requires
        c.active_voice_id matches Some(id) ==> forall|j: int|
            0 <= j < c.voices@.len() ==> (#[trigger] c.voices@[j]).id != id,
    ensures
        active_reference(c) is None,
{
    if let Some(id) = c.active_voice_id {
        voice_with_is_first(c.voices@, id, 0);
    }
}

/// A loaded engine is used again only where neither model, nor the directory, nor the number of tokens
/// changed.
pub proof fn engines_are_used_again_unchanged(a: EngineKeyView, pair: PairView, c: AppConfig)
    ensures
        same_engine(a, engine_key_of(pair, c)) <==> same_path(a.transformer, pair.transformer.path)
            && same_path(a.codec, pair.codec.path) && same_path(a.workdir, c.server_workdir@)
            && a.max_new_tokens == c.server_max_new_tokens,
{
}

/// The label and the identifier that are shown are those of the pair that is used.
pub proof fn shown_pair_is_the_one_used(id: Option<Seq<char>>, pairs: Seq<ModelPair>)
    ensures
        chosen_pair(id, pairs) matches Some(k) ==> chosen_label(id, pairs) == Some(pairs[k].label@)
            && chosen_id(id, pairs) == Some(pairs[k].id@),
        chosen_pair(id, pairs) is None ==> chosen_label(id, pairs) is None && chosen_id(id, pairs)
            == id,
{
}

/// A log keeps all its lines, and gets one more that tells the time.
pub proof fn logs_keep_their_lines(log: Seq<char>, clock: Seq<char>, line: Seq<char>)
    ensures
        logged(log, clock, line).len() >= log.len() + line.len(),
        logged(log, clock, line).take(log.len() as int) == log,
        logged(log, clock, line).skip(logged(log, clock, line).len() - line.len()) == line,
        log.len() > 0 ==> logged(log, clock, line)[log.len() as int] == '\n',
{
    reveal_strlit("\n");
    let all = logged(log, clock, line);
    assert(all.take(log.len() as int) =~= log);
    assert(all.skip(all.len() - line.len()) =~= line);
}

/// A voice can be saved exactly where its sound exists and its text is not blank.
pub proof fn voices_need_sound_and_text(s: Studio, exists_wav: bool)
    ensures
        s.has_voice_parts(exists_wav) <==> exists_wav && trimmed(s.clone_ref_text@).len() > 0,
{
}

/// A script without an empty line is one part, unless it is blank; an empty line parts what stands
/// before it from what stands behind it.
pub proof fn empty_lines_part_scripts(a: Seq<char>, b: Seq<char>, part: Seq<char>)
    requires
        forall|i: int| 0 <= i < a.len() ==> #[trigger] a[i] != '\n',
    ensures
        filled_parts(a, part) == (if trimmed(part + a).len() > 0 {
            1nat
        } else {
            0
        }),
        filled_parts(a + seq!['\n', '\n'] + b, part) == (if trimmed(part + a).len() > 0 {
            1nat
        } else {
            0
        }) + filled_parts(b, Seq::empty()),
    decreases a.len(),
{
    let all = a + seq!['\n', '\n'] + b;
    if a.len() == 0 {
        assert(part + a =~= part);
        assert(all.skip(2) =~= b);
        assert(all[0] == '\n' && all[1] == '\n');
    } else {
        let rest = a.skip(1);
        assert forall|i: int| 0 <= i < rest.len() implies #[trigger] rest[i] != '\n' by {
            assert(rest[i] == a[i + 1]);
        }
        empty_lines_part_scripts(rest, b, part.push(a[0]));
        assert(part.push(a[0]) + rest =~= part + a);
        assert(all.skip(1) =~= rest + seq!['\n', '\n'] + b);
        assert(all[0] == a[0]);
    }
}

// ---------------------------------------------------------------------
// Names of tensors
// ---------------------------------------------------------------------

proof fn lemma_digits_alone(n: nat)
    ensures
        dec(n).len() > 0,
        forall|i: int| 0 <= i < dec(n).len() ==> #[trigger] dec(n)[i] != '.',
    decreases n,
{
    if n >= 10 {
        lemma_digits_alone(n / 10);
    }
}

/// What stands behind a prefix, a number and a dot is told together with the number.
pub proof fn numbered_names_are_taken_apart(prefix: Seq<char>, n: usize, tail: Seq<char>)
    ensures
        numbered(prefix + dec(n as nat) + seq!['.'] + tail, prefix) == Some((n, tail)),
{
    let digits = dec(n as nat);
    let name = prefix + digits + seq!['.'] + tail;
    let rest = digits + seq!['.'] + tail;
    lemma_digits_alone(n as nat);
    assert(name.subrange(0, prefix.len() as int) =~= prefix);
    assert(occurs_at(name, prefix, 0));
    assert(name.skip(prefix.len() as int) =~= rest);
    let p = digits.len() as int;
    lemma_next_at(rest, seq!['.'], 0);
    assert(rest.subrange(p, p + 1) =~= seq!['.']);
    assert(occurs_at(rest, seq!['.'], p));
    let q = next_at(rest, seq!['.'], 0)->0;
    assert(rest.subrange(q, q + 1)[0] == rest[q]);
    if q < p {
        assert(rest[q] == digits[q]);
    }
    assert(q == p);
    assert(rest.take(p) =~= digits);
    assert(rest.skip(p + 1) =~= tail);
    parse_reads_back_decimal(n as nat, usize::MAX as nat);
}

} // verus!
