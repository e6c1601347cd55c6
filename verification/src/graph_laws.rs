//! What the shape of a model comes to.
use crate::error::ErrorView;
use crate::gguf_summary::value_of;
use crate::graph::{
    described_graph, flag_under, number_under, sizes_of, ArGraphSpec, ArGraphSpecParams,
    DualArGraphSpec, Entries, FloatReading, FloatReadings,
};
use crate::number::{unsigned_value, ParseIntError};
use vstd::prelude::*;

verus! {

/// Whether the first entry under a key has this text.
pub open spec fn says(m: Entries, key: Seq<char>, text: Seq<char>) -> bool {
    exists|i: int|
        {
            &&& 0 <= i < m.len()
            &&& #[trigger] m[i] == (key, text)
            &&& forall|j: int| 0 <= j < i ==> (#[trigger] m[j]).0 != key
        }
}

/// Whether the first entry under a key is the text of a number.
pub open spec fn says_number(m: Entries, key: Seq<char>, n: u32) -> bool {
    exists|text: Seq<char>|
        #[trigger] says(m, key, text) && unsigned_value(text, u32::MAX as nat) == Ok::<
            nat,
            ParseIntError,
        >(n as nat)
}

/// Whether the first entry under a key is the text of a truth value.
pub open spec fn says_flag(m: Entries, key: Seq<char>, flag: bool) -> bool {
    if flag {
        says(m, key, "true"@)
    } else {
        says(m, key, "false"@)
    }
}

/// The value under a key is that of the first entry that has the key.
pub proof fn first_entry_of_a_key_counts(m: Entries, key: Seq<char>, text: Seq<char>)
    requires
        value_of(m, key, 0) == Some(text),
    ensures
        says(m, key, text),
{
    lemma_value_of(m, key, 0, text);
}

proof fn lemma_value_of(m: Entries, key: Seq<char>, i: int, text: Seq<char>)
    requires
        0 <= i,
        value_of(m, key, i) == Some(text),
        forall|j: int| 0 <= j < i ==> (#[trigger] m[j]).0 != key,
    ensures
        says(m, key, text),
    decreases m.len() - i,
{
    if m[i].0 == key {
        assert(m[i] == (key, text));
    } else {
        lemma_value_of(m, key, i + 1, text);
    }
}

proof fn lemma_says_number(m: Entries, key: Seq<char>, n: u32)
    requires
        number_under(m, key) == Ok::<u32, ErrorView>(n),
    ensures
        says_number(m, key, n),
{
    let text = value_of(m, key, 0)->0;
    first_entry_of_a_key_counts(m, key, text);
    lemma_within(text, 0, u32::MAX as nat);
    if text.len() > 0 {
        lemma_within(text.skip(1), 0, u32::MAX as nat);
    }
}

proof fn lemma_within(s: Seq<char>, acc: nat, max: nat)
    requires
        acc <= max,
    ensures
        crate::number::digits_value(s, acc, max) matches Ok(v) ==> v <= max,
    decreases s.len(),
{
    if s.len() > 0 && '0' <= s[0] && s[0] <= '9' {
        let v = acc * 10 + (s[0] as u32 - 48) as nat;
        if v <= max {
            lemma_within(s.skip(1), v, max);
        }
    }
}

proof fn lemma_says_flag(m: Entries, key: Seq<char>, flag: bool)
    requires
        flag_under(m, key) == Ok::<bool, ErrorView>(flag),
    ensures
        says_flag(m, key, flag),
{
    let text = value_of(m, key, 0)->0;
    first_entry_of_a_key_counts(m, key, text);
}

/// The shape of a model is what its metadata say, each size under its own key.
pub proof fn shapes_follow_their_metadata(m: Entries, f: FloatReadings, g: DualArGraphSpec)
    requires
        described_graph(m, f) == Ok::<DualArGraphSpec, ErrorView>(g),
    ensures
        says_number(m, "fish-speech.context_length"@, g.slow.context_length),
        says_number(m, "fish-speech.embedding_length"@, g.slow.embedding_length),
        says_number(m, "fish-speech.feed_forward_length"@, g.slow.feed_forward_length),
        says_number(m, "fish-speech.block_count"@, g.slow.block_count),
        says_number(m, "fish-speech.attention.head_count"@, g.slow.head_count),
        says_number(m, "fish-speech.attention.head_count_kv"@, g.slow.head_count_kv),
        says_number(m, "fish_speech.fast_context_length"@, g.fast.context_length),
        says_number(m, "fish_speech.fast_embedding_length"@, g.fast.embedding_length),
        says_number(m, "fish_speech.fast_feed_forward_length"@, g.fast.feed_forward_length),
        says_number(m, "fish_speech.fast_block_count"@, g.fast.block_count),
        says_number(m, "fish_speech.fast_head_count"@, g.fast.head_count),
        says_number(m, "fish_speech.fast_head_count_kv"@, g.fast.head_count_kv),
        says_number(m, "fish_speech.fast_head_dim"@, g.fast.head_dim),
        says_number(m, "fish_speech.codebook_size"@, g.codebook_size),
        says_number(m, "fish_speech.num_codebooks"@, g.num_codebooks),
        says_number(m, "fish_speech.semantic_begin_id"@, g.semantic_begin_id),
        says_number(m, "fish_speech.semantic_end_id"@, g.semantic_end_id),
        says_flag(m, "fish_speech.attention_qk_norm"@, g.slow.attention_qk_norm),
        says_flag(m, "fish_speech.fast_attention_qk_norm"@, g.fast.attention_qk_norm),
        says_flag(m, "fish_speech.scale_codebook_embeddings"@, g.scale_codebook_embeddings),
        says_flag(m, "fish_speech.tie_word_embeddings"@, g.tie_word_embeddings),
        says_flag(m, "fish_speech.fast_project_in"@, g.fast_has_project_in),
        f.slow_rope_freq_base matches FloatReading::Value(b, _) && g.slow.rope_freq_base == b,
        f.slow_rms_norm_eps matches FloatReading::Value(b, _) && g.slow.rms_norm_eps == b,
        f.fast_rope_freq_base matches FloatReading::Value(b, _) && g.fast.rope_freq_base == b,
        f.fast_rms_norm_eps matches FloatReading::Value(b, _) && g.fast.rms_norm_eps == b,
        g.slow.attention_qk_norm ==> g.slow.head_dim == 128,
        g.kv_cache.head_dim == g.slow.head_dim,
        g.kv_cache.head_count_kv == g.slow.head_count_kv,
        g.kv_cache.block_count == g.slow.block_count,
{
    lemma_says_number(m, "fish-speech.context_length"@, g.slow.context_length);
    lemma_says_number(m, "fish-speech.embedding_length"@, g.slow.embedding_length);
    lemma_says_number(m, "fish-speech.feed_forward_length"@, g.slow.feed_forward_length);
    lemma_says_number(m, "fish-speech.block_count"@, g.slow.block_count);
    lemma_says_number(m, "fish-speech.attention.head_count"@, g.slow.head_count);
    lemma_says_number(m, "fish-speech.attention.head_count_kv"@, g.slow.head_count_kv);
    lemma_says_number(m, "fish_speech.fast_context_length"@, g.fast.context_length);
    lemma_says_number(m, "fish_speech.fast_embedding_length"@, g.fast.embedding_length);
    lemma_says_number(m, "fish_speech.fast_feed_forward_length"@, g.fast.feed_forward_length);
    lemma_says_number(m, "fish_speech.fast_block_count"@, g.fast.block_count);
    lemma_says_number(m, "fish_speech.fast_head_count"@, g.fast.head_count);
    lemma_says_number(m, "fish_speech.fast_head_count_kv"@, g.fast.head_count_kv);
    lemma_says_number(m, "fish_speech.fast_head_dim"@, g.fast.head_dim);
    lemma_says_number(m, "fish_speech.codebook_size"@, g.codebook_size);
    lemma_says_number(m, "fish_speech.num_codebooks"@, g.num_codebooks);
    lemma_says_number(m, "fish_speech.semantic_begin_id"@, g.semantic_begin_id);
    lemma_says_number(m, "fish_speech.semantic_end_id"@, g.semantic_end_id);
    lemma_says_flag(m, "fish_speech.attention_qk_norm"@, g.slow.attention_qk_norm);
    lemma_says_flag(m, "fish_speech.fast_attention_qk_norm"@, g.fast.attention_qk_norm);
    lemma_says_flag(m, "fish_speech.scale_codebook_embeddings"@, g.scale_codebook_embeddings);
    lemma_says_flag(m, "fish_speech.tie_word_embeddings"@, g.tie_word_embeddings);
    lemma_says_flag(m, "fish_speech.fast_project_in"@, g.fast_has_project_in);
}

/// The heads of a transformer share its widths: queries take as many values as all heads, keys and
/// values as many as the heads that keep them, and every such head serves as many heads as there are
/// for it.
pub proof fn heads_share_the_widths(p: ArGraphSpecParams, s: ArGraphSpec)
    requires
        sizes_of(p) == Ok::<ArGraphSpec, ErrorView>(s),
        p.head_count * p.head_dim <= u32::MAX,
        p.head_count_kv * p.head_dim <= u32::MAX,
    ensures
        s.q_size == s.head_count * s.head_dim,
        s.kv_size == s.head_count_kv * s.head_dim,
        s.head_repeat * s.head_count_kv == s.head_count,
        s.context_length == p.context_length,
        s.embedding_length == p.embedding_length,
        s.feed_forward_length == p.feed_forward_length,
        s.block_count == p.block_count,
        s.head_count == p.head_count,
        s.head_count_kv == p.head_count_kv,
        s.head_dim == p.head_dim,
        s.rope_freq_base == p.rope_freq_base,
        s.rms_norm_eps == p.rms_norm_eps,
        s.attention_qk_norm == p.attention_qk_norm,
{
    let h = p.head_count as int;
    let k = p.head_count_kv as int;
    assert(h == k * (h / k) + h % k) by (nonlinear_arith)
        requires
            k > 0,
    ;
    assert((h / k) * k == k * (h / k)) by (nonlinear_arith);
}

} // verus!
