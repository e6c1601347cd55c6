//! What paths, names and texts come to.
use crate::models::{
    codec_for, goes_with, has_model_extension, kind_by_name, pair_for, EntryView, ModelKind,
};
use crate::paths::{
    is_root, join, last_part, models_place, name_or_empty, output_place, server_place,
    tokenizer_place, RootMarkers,
};
use crate::text::{
    contains_text, dec, dec_int, ends_in, is_space, lower, lower_char, strip_end, strip_start,
    text_le, trimmed,
};
use vstd::prelude::*;

verus! {

// ---------------------------------------------------------------------
// Texts
// ---------------------------------------------------------------------

/// Small letters stay as they are, and capital ones become the small ones of the same place in the
/// alphabet; a text keeps its length.
pub proof fn capital_letters_become_small(s: Seq<char>, i: int)
    requires
        0 <= i < s.len(),
    ensures
        lower(s).len() == s.len(),
        !('A' <= s[i] && s[i] <= 'Z') ==> lower(s)[i] == s[i],
        'A' <= s[i] && s[i] <= 'Z' ==> lower(s)[i] as u32 - 'a' as u32 == s[i] as u32 - 'A' as u32,
        lower(lower(s)) == lower(s),
{
    assert forall|k: int| 0 <= k < s.len() implies lower(lower(s))[k] == #[trigger] lower(s)[k] by {
        assert(lower_char(lower_char(s[k])) == lower_char(s[k]));
    }
    assert(lower(lower(s)) =~= lower(s));
}

/// Trimming takes away spaces at both ends, and nothing else: what is left stands in the text with
/// nothing but spaces around it, and begins and ends with none.
pub proof fn trimming_takes_spaces_alone(s: Seq<char>)
    ensures
        exists|a: int, b: int|
            {
                &&& 0 <= a <= b <= s.len()
                &&& trimmed(s) == #[trigger] s.subrange(a, b)
                &&& forall|i: int| 0 <= i < a ==> is_space(#[trigger] s[i])
                &&& forall|i: int| b <= i < s.len() ==> is_space(#[trigger] s[i])
                &&& a < b ==> !is_space(s[a]) && !is_space(s[b - 1])
            },
{
    let p = |c: char| is_space(c);
    let a = lemma_start(s, p);
    let rest = s.skip(a);
    let n = lemma_end(rest, p);
    let b = a + n;
    assert(s.subrange(a, b) =~= rest.take(n));
    assert forall|i: int| b <= i < s.len() implies is_space(#[trigger] s[i]) by {
        assert(p(rest[i - a]));
    }
    assert forall|i: int| 0 <= i < a implies is_space(#[trigger] s[i]) by {
        assert(p(s[i]));
    }
    if a < b {
        assert(!p(rest[n - 1]));
        assert(!p(s[a]));
    }
    assert(trimmed(s) == s.subrange(a, b));
}

proof fn lemma_start(s: Seq<char>, p: spec_fn(char) -> bool) -> (a: int)
    ensures
        0 <= a <= s.len(),
        strip_start(s, p) == s.skip(a),
        forall|i: int| 0 <= i < a ==> p(#[trigger] s[i]),
        a < s.len() ==> !p(s[a]),
    decreases s.len(),
{
    if s.len() > 0 && p(s[0]) {
        let k = lemma_start(s.skip(1), p);
        assert(s.skip(1).skip(k) =~= s.skip(k + 1));
        assert forall|i: int| 0 <= i < k + 1 implies p(#[trigger] s[i]) by {
            if i > 0 {
                assert(s.skip(1)[i - 1] == s[i]);
            }
        }
        if k + 1 < s.len() {
            assert(s.skip(1)[k] == s[k + 1]);
        }
        k + 1
    } else {
        assert(s.skip(0) =~= s);
        0
    }
}

proof fn lemma_end(s: Seq<char>, p: spec_fn(char) -> bool) -> (n: int)
    ensures
        0 <= n <= s.len(),
        strip_end(s, p) == s.take(n),
        forall|i: int| n <= i < s.len() ==> p(#[trigger] s[i]),
        n > 0 ==> !p(s[n - 1]),
    decreases s.len(),
{
    if s.len() > 0 && p(s.last()) {
        let n = lemma_end(s.drop_last(), p);
        assert(s.drop_last().take(n) =~= s.take(n));
        assert forall|i: int| n <= i < s.len() implies p(#[trigger] s[i]) by {
            if i < s.len() - 1 {
                assert(s.drop_last()[i] == s[i]);
            }
        }
        if n > 0 {
            assert(s.drop_last()[n - 1] == s[n - 1]);
        }
        n
    } else {
        assert(s.take(s.len() as int) =~= s);
        s.len() as int
    }
}

/// A negative number is shown by a dash and its size.
pub proof fn negative_numbers_have_a_dash(n: nat)
    ensures
        dec_int(n as int) == dec(n),
        n > 0 ==> dec_int(-(n as int)) == seq!['-'] + dec(n),
{
}

// ---------------------------------------------------------------------
// Paths
// ---------------------------------------------------------------------

/// A part is put behind a path with one separator between them, and an absolute part stands alone.
pub proof fn paths_are_joined_by_one_separator(base: Seq<char>, part: Seq<char>)
    ensures
        part.len() > 0 && part[0] == '/' ==> join(base, part) == part,
        (part.len() == 0 || part[0] != '/') && base.len() > 0 && base.last() != '/' ==> join(
            base,
            part,
        ) == base + seq!['/'] + part,
        (part.len() == 0 || part[0] != '/') && base.len() > 0 && base.last() == '/' ==> join(
            base,
            part,
        ) == base + part,
        part.len() == 0 || part[0] != '/' ==> join(Seq::empty(), part) == part,
{
    reveal_strlit("/");
    assert("/"@ =~= seq!['/']);
    assert(Seq::<char>::empty() + part =~= part);
}

/// The last part of a path has no separator in it, and is led by one or stands alone.
pub proof fn last_parts_have_no_separator(s: Seq<char>)
    ensures
        last_part(s).len() <= s.len(),
        last_part(s) == s.skip(s.len() - last_part(s).len()),
        forall|i: int| 0 <= i < last_part(s).len() ==> #[trigger] last_part(s)[i] != '/',
        last_part(s).len() < s.len() ==> s[s.len() - last_part(s).len() - 1] == '/',
    decreases s.len(),
{
    if s.len() > 0 && s.last() != '/' {
        last_parts_have_no_separator(s.drop_last());
        assert(last_part(s) =~= s.skip(s.len() - last_part(s).len()));
    } else {
        assert(last_part(s) =~= s.skip(s.len() as int));
    }
}

/// Everything has its place under the root.
pub proof fn places_lie_under_the_root(root: Seq<char>)
    requires
        root.len() > 0,
        root.last() != '/',
    ensures
        models_place(root) == root + "/models"@,
        output_place(root) == root + "/output"@,
        server_place(root) == root + "/runtime/s2_server"@,
        tokenizer_place(root) == root + "/models/tokenizer.json"@,
{
    reveal_strlit("/");
    reveal_strlit("models");
    reveal_strlit("output");
    reveal_strlit("runtime");
    reveal_strlit("s2_server");
    reveal_strlit("tokenizer.json");
    reveal_strlit("/models");
    reveal_strlit("/output");
    reveal_strlit("/runtime/s2_server");
    reveal_strlit("/models/tokenizer.json");
    assert(models_place(root) =~= root + "/models"@);
    assert(output_place(root) =~= root + "/output"@);
    let runtime = root + "/"@ + "runtime"@;
    assert(runtime.last() == 'e');
    assert(server_place(root) =~= root + "/runtime/s2_server"@);
    assert(models_place(root).last() == 's');
    assert(tokenizer_place(root) =~= root + "/models/tokenizer.json"@);
}

/// A directory is a root by what it holds: a manifest with models and programs, or a package file with
/// models or crates.
pub proof fn roots_are_told_by_what_they_hold(m: RootMarkers)
    ensures
        is_root(m) <==> (m.manifest_is_file && m.models_is_dir && m.bin_is_dir) || (
        m.cargo_toml_exists && (m.models_exists || m.crates_is_dir)),
{
}

// ---------------------------------------------------------------------
// Models
// ---------------------------------------------------------------------

/// What a model file holds is told by its name, whatever the case of its letters: a codec where the
/// name says so, else a transformer where it says so, else both where it is a model file.
pub proof fn kinds_are_told_by_names(name: Seq<char>)
    ensures
        kind_by_name(name) == ModelKind::CodecOnly <==> contains_text(lower(name), "codec-only"@)
            || contains_text(lower(name), "codec_only"@),
        kind_by_name(name) == ModelKind::TransformerOnly ==> contains_text(
            lower(name),
            "transformer-only"@,
        ) || contains_text(lower(name), "transformer_only"@),
        kind_by_name(name) == ModelKind::Unified ==> ends_in(lower(name), ".gguf"@) && !contains_text(
            lower(name),
            "transformer-only"@,
        ) && !contains_text(lower(name), "transformer_only"@),
        kind_by_name(name) == ModelKind::Unknown ==> !ends_in(lower(name), ".gguf"@),
        has_model_extension(name) ==> kind_by_name(name) != ModelKind::Unknown,
{
}

/// The codec of a transformer is the first one that goes with it.
pub proof fn first_codec_is_taken(entries: Seq<EntryView>, tr: EntryView, i: int)
    requires
        0 <= i,
    ensures
        match codec_for(entries, tr, i) {
            Some(k) => i <= k < entries.len() && goes_with(entries[k], tr) && forall|j: int|
                i <= j < k ==> !goes_with(#[trigger] entries[j], tr),
            None => forall|j: int| i <= j < entries.len() ==> !goes_with(#[trigger] entries[j], tr),
        },
    decreases entries.len() - i,
{
    if i < entries.len() && !goes_with(entries[i], tr) {
        first_codec_is_taken(entries, tr, i + 1);
    }
}

/// A transformer forms a pair with its codec, or with itself where it holds one; the pair is named
/// after both files.
pub proof fn pairs_are_named_after_both(entries: Seq<EntryView>, tr: EntryView)
    ensures
        tr.kind != ModelKind::TransformerOnly && tr.kind != ModelKind::Unified ==> pair_for(
            entries,
            tr,
        ) is None,
        pair_for(entries, tr) matches Some(p) ==> {
            &&& p.transformer == tr
            &&& p.codec == tr || exists|k: int|
                0 <= k < entries.len() && p.codec == #[trigger] entries[k] && goes_with(
                    entries[k],
                    tr,
                )
            &&& codec_for(entries, tr, 0) is Some ==> p.id == tr.path + "|"@ + p.codec.path
                && p.label == name_or_empty(tr.path) + " + "@ + name_or_empty(p.codec.path)
            &&& codec_for(entries, tr, 0) is None ==> p.id == tr.path && p.codec == tr
                && tr.kind == ModelKind::Unified
        },
        codec_for(entries, tr, 0) is None && tr.kind == ModelKind::TransformerOnly ==> pair_for(
            entries,
            tr,
        ) is None,
        codec_for(entries, tr, 0) is Some && (tr.kind == ModelKind::TransformerOnly || tr.kind
            == ModelKind::Unified) ==> pair_for(entries, tr) is Some,
{
    first_codec_is_taken(entries, tr, 0);
}

/// Among plain characters, spaces are the blank itself and those from the tab to the carriage return.
pub proof fn plain_spaces(c: char)
    requires
        c as u32 <= 0x7f,
    ensures
        is_space(c) <==> c == ' ' || 9 <= c as u32 <= 13,
{
}

/// Texts are ordered by their first difference, and a text comes before one that it begins.
pub proof fn texts_differ_at_their_first_difference(
    whole: Seq<char>,
    a: char,
    b: char,
    x: Seq<char>,
    y: Seq<char>,
)
    requires
        a < b,
    ensures
        text_le(whole + seq![a] + x, whole + seq![b] + y),
        !text_le(whole + seq![b] + y, whole + seq![a] + x),
        text_le(whole, whole + x),
    decreases whole.len(),
{
    let p = whole + seq![a] + x;
    let q = whole + seq![b] + y;
    if whole.len() > 0 {
        let rest = whole.skip(1);
        texts_differ_at_their_first_difference(rest, a, b, x, y);
        assert(p.skip(1) =~= rest + seq![a] + x);
        assert(q.skip(1) =~= rest + seq![b] + y);
        assert((whole + x).skip(1) =~= rest + x);
        assert(p[0] == whole[0] && q[0] == whole[0] && (whole + x)[0] == whole[0]);
    } else {
        assert(p[0] == a && q[0] == b);
    }
}

} // verus!
